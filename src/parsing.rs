use vstd::prelude::*;

use crate::errors::{ErrorView, ParseError};
use crate::text::{
    chars_of, find_char, is_first_pos, range_equals, split, split_ranges, string_of, texts, trim,
    trim_range,
};

verus! {

/// The key/value pairs of a header block; a later pair replaces an earlier one of the same key.
pub struct HeaderMap {
    entries: Vec<(String, String)>,
}

/// The map that a list of pairs gives when later pairs replace earlier ones.
pub open spec fn map_of(s: Seq<(String, String)>) -> Map<Seq<char>, Seq<char>>
    decreases s.len(),
{
    if s.len() == 0 {
        Map::empty()
    } else {
        map_of(s.drop_last()).insert(s.last().0@, s.last().1@)
    }
}

proof fn lemma_map_of_tail(s: Seq<(String, String)>, i: int, k: Seq<char>)
    requires
        0 <= i <= s.len(),
        forall|j: int| i <= j < s.len() ==> (#[trigger] s[j]).0@ != k,
    ensures
        map_of(s).contains_key(k) == map_of(s.take(i)).contains_key(k),
        map_of(s).contains_key(k) ==> map_of(s)[k] == map_of(s.take(i))[k],
    decreases s.len(),
{
    if s.len() > i {
        assert(s.drop_last().take(i) =~= s.take(i));
        lemma_map_of_tail(s.drop_last(), i, k);
    } else {
        assert(s.take(i) =~= s);
    }
}

impl View for HeaderMap {
    type V = Map<Seq<char>, Seq<char>>;

    closed spec fn view(&self) -> Map<Seq<char>, Seq<char>> {
        map_of(self.entries@)
    }
}

impl HeaderMap {
    pub fn new() -> (r: HeaderMap)
        ensures
            r@ == Map::<Seq<char>, Seq<char>>::empty(),
    {
        HeaderMap { entries: Vec::new() }
    }

    /// Sets `key` to `value`, replacing what the key held before.
    pub fn insert(&mut self, key: String, value: String)
        ensures
            final(self)@ == old(self)@.insert(key@, value@),
    {
        self.entries.push((key, value));
        assert(self.entries@.drop_last() =~= old(self).entries@);
    }

    /// The value of `key`, if the header holds it.
    pub fn get(&self, key: &String) -> (r: Option<&String>)
        ensures
            r is Some == self@.contains_key(key@),
            r matches Some(v) ==> v@ == self@[key@],
    {
        let mut i: usize = self.entries.len();
        while i > 0
            invariant
                0 <= i <= self.entries.len(),
                forall|j: int| i <= j < self.entries.len() ==> (#[trigger] self.entries@[j]).0@ != key@,
            decreases i,
        {
            if self.entries[i - 1].0 == *key {
                proof {
                    lemma_map_of_tail(self.entries@, i as int, key@);
                    assert(self.entries@.take(i as int).drop_last() =~= self.entries@.take(i - 1));
                }
                return Some(&self.entries[i - 1].1);
            }
            i -= 1;
        }
        proof {
            lemma_map_of_tail(self.entries@, 0, key@);
        }
        None
    }

    pub fn contains_key(&self, key: &String) -> (r: bool)
        ensures
            r == self@.contains_key(key@),
    {
        self.get(key).is_some()
    }
}

/// A log file split into its header pairs and its tab-separated data block.
pub struct RawLiCorFile {
    pub header: HeaderMap,
    pub column_categories: Vec<String>,
    pub column_names: Vec<String>,
    pub units: Vec<String>,
    pub data_rows: Vec<Vec<String>>,
}

/// A `RawLiCorFile` as mathematical values.
pub struct RawView {
    pub header: Map<Seq<char>, Seq<char>>,
    pub column_categories: Seq<Seq<char>>,
    pub column_names: Seq<Seq<char>>,
    pub units: Seq<Seq<char>>,
    pub data_rows: Seq<Seq<Seq<char>>>,
}

impl View for RawLiCorFile {
    type V = RawView;

    open spec fn view(&self) -> RawView {
        RawView {
            header: self.header@,
            column_categories: texts(self.column_categories@),
            column_names: texts(self.column_names@),
            units: texts(self.units@),
            data_rows: self.data_rows@.map_values(|r: Vec<String>| texts(r@)),
        }
    }
}

pub open spec fn header_marker() -> Seq<char> {
    "[Header]"@
}

pub open spec fn data_marker() -> Seq<char> {
    "[Data]"@
}

/// The lines of a text, as they stand.
pub open spec fn lines_of(c: Seq<char>) -> Seq<Seq<char>> {
    split(c, '\n')
}

/// `i` is the first index of a line that reads `m` once trimmed.
pub open spec fn is_first_line(lines: Seq<Seq<char>>, m: Seq<char>, i: int) -> bool {
    0 <= i < lines.len() && trim(lines[i]) == m && forall|j: int|
        0 <= j < i ==> trim(lines[j]) != m
}

pub open spec fn has_line(lines: Seq<Seq<char>>, m: Seq<char>) -> bool {
    exists|i: int| 0 <= i < lines.len() && trim(lines[i]) == m
}

pub open spec fn first_line(lines: Seq<Seq<char>>, m: Seq<char>) -> int {
    choose|i: int| is_first_line(lines, m, i)
}

/// The key/value pair of a header line: split at its first tab, both sides trimmed.
pub open spec fn header_pair(l: Seq<char>) -> Option<(Seq<char>, Seq<char>)> {
    if exists|i: int| is_first_pos(l, '\t', i) {
        let i = choose|i: int| is_first_pos(l, '\t', i);
        Some((trim(l.take(i)), trim(l.skip(i + 1))))
    } else {
        None
    }
}

/// The header pairs of `lines`; lines without a tab are dropped, later keys win.
pub open spec fn header_of(lines: Seq<Seq<char>>) -> Map<Seq<char>, Seq<char>>
    decreases lines.len(),
{
    if lines.len() == 0 {
        Map::empty()
    } else {
        let m = header_of(lines.drop_last());
        match header_pair(lines.last()) {
            Some(kv) => m.insert(kv.0, kv.1),
            None => m,
        }
    }
}

/// The sequence without the empty texts at its end.
pub open spec fn strip_trailing_empty(s: Seq<Seq<char>>) -> Seq<Seq<char>>
    decreases s.len(),
{
    if s.len() > 0 && s.last().len() == 0 {
        strip_trailing_empty(s.drop_last())
    } else {
        s
    }
}

/// The tab-separated fields of a line, trimmed, without empty fields at its end.
pub open spec fn fields_of(l: Seq<char>) -> Seq<Seq<char>> {
    strip_trailing_empty(split(l, '\t').map_values(|f: Seq<char>| trim(f)))
}

/// `s` padded with empty texts, or cut, to length `n`.
pub open spec fn fit(s: Seq<Seq<char>>, n: nat) -> Seq<Seq<char>> {
    Seq::new(n, |i: int| if i < s.len() { s[i] } else { Seq::<char>::empty() })
}

/// The data rows of `lines`: blank lines skipped, each row fitted to `n` fields.
pub open spec fn rows_of(lines: Seq<Seq<char>>, n: nat) -> Seq<Seq<Seq<char>>>
    decreases lines.len(),
{
    if lines.len() == 0 {
        Seq::empty()
    } else {
        let r = rows_of(lines.drop_last(), n);
        if trim(lines.last()).len() == 0 {
            r
        } else {
            r.push(fit(fields_of(lines.last()), n))
        }
    }
}

pub open spec fn max3(a: nat, b: nat, c: nat) -> nat {
    if a >= b && a >= c {
        a
    } else if b >= c {
        b
    } else {
        c
    }
}

pub open spec fn missing_section(message: Seq<char>) -> Result<RawView, ErrorView> {
    Err(ErrorView::InvalidHeaderFormat { message })
}

/// What reading `c` as a log file gives.
pub open spec fn raw_parse(c: Seq<char>) -> Result<RawView, ErrorView> {
    let lines = lines_of(c);
    if !has_line(lines, header_marker()) {
        missing_section("Missing [Header] section"@)
    } else if !has_line(lines, data_marker()) {
        missing_section("Missing [Data] section"@)
    } else {
        let h = first_line(lines, header_marker());
        let d = first_line(lines, data_marker());
        if d <= h {
            missing_section("[Data] section must come after [Header] section"@)
        } else {
            let body = lines.skip(d + 1);
            if body.len() < 3 {
                Err(ErrorView::EmptyDataSection)
            } else {
                let cats = fields_of(body[0]);
                let names = fields_of(body[1]);
                let units = fields_of(body[2]);
                let n = max3(cats.len(), names.len(), units.len());
                let rows = rows_of(body.skip(3), n);
                if rows.len() == 0 {
                    Err(ErrorView::EmptyDataSection)
                } else {
                    Ok(
                        RawView {
                            header: header_of(lines.subrange(h + 1, d)),
                            column_categories: fit(cats, n),
                            column_names: fit(names, n),
                            units: fit(units, n),
                            data_rows: rows,
                        },
                    )
                }
            }
        }
    }
}

/// The file's column rows have one length, and every data row has it too.
pub open spec fn is_rectangular(f: RawView) -> bool {
    &&& f.column_names.len() == f.column_categories.len()
    &&& f.column_names.len() == f.units.len()
    &&& forall|i: int| 0 <= i < f.data_rows.len() ==> (#[trigger] f.data_rows[i]).len() == f.column_names.len()
}

proof fn lemma_rows_have_length(lines: Seq<Seq<char>>, n: nat)
    ensures
        forall|i: int| 0 <= i < rows_of(lines, n).len() ==> (#[trigger] rows_of(lines, n)[i]).len() == n,
    decreases lines.len(),
{
    if lines.len() > 0 {
        lemma_rows_have_length(lines.drop_last(), n);
        let r = rows_of(lines.drop_last(), n);
        if lines.last().len() != 0 {
            assert(fit(fields_of(lines.last()), n).len() == n);
            assert forall|i: int| 0 <= i < rows_of(lines, n).len() implies (#[trigger] rows_of(
                lines,
                n,
            )[i]).len() == n by {
                if i < r.len() {
                    assert(rows_of(lines, n)[i] == r[i]);
                }
            }
        }
    }
}

/// Whatever text is read, the category, name and unit rows have one length, and so has every
/// data row.
pub proof fn law_rows_have_one_length(c: Seq<char>)
    requires
        raw_parse(c) is Ok,
    ensures
        is_rectangular(raw_parse(c)->Ok_0),
{
    let lines = lines_of(c);
    let d = first_line(lines, data_marker());
    let body = lines.skip(d + 1);
    let n = max3(fields_of(body[0]).len(), fields_of(body[1]).len(), fields_of(body[2]).len());
    lemma_rows_have_length(body.skip(3), n);
}

/// The bounds of each line of `v`.
fn line_ranges(v: &Vec<char>) -> (r: Vec<(usize, usize)>)
    ensures
        r.len() == lines_of(v@).len(),
        forall|k: int|
            0 <= k < r.len() ==> (#[trigger] r[k]).0 <= r[k].1 <= v.len() && v@.subrange(
                r[k].0 as int,
                r[k].1 as int,
            ) == lines_of(v@)[k],
{
    let r = split_ranges(v, 0, v.len(), '\n');
    assert(v@.subrange(0, v.len() as int) =~= v@);
    r
}

/// The first line among `lines` that reads `m` once trimmed.
fn find_line(v: &Vec<char>, lines: &Vec<(usize, usize)>, m: &Vec<char>) -> (r: Option<usize>)
    requires
        lines.len() == lines_of(v@).len(),
        forall|k: int|
            0 <= k < lines.len() ==> (#[trigger] lines[k]).0 <= lines[k].1 <= v.len() && v@.subrange(
                lines[k].0 as int,
                lines[k].1 as int,
            ) == lines_of(v@)[k],
    ensures
        r is None ==> !has_line(lines_of(v@), m@),
        r matches Some(i) ==> is_first_line(lines_of(v@), m@, i as int) && first_line(
            lines_of(v@),
            m@,
        ) == i,
{
    let ghost ls = lines_of(v@);
    let mut i: usize = 0;
    while i < lines.len()
        invariant
            ls == lines_of(v@),
            lines.len() == ls.len(),
            forall|k: int|
                0 <= k < lines.len() ==> (#[trigger] lines[k]).0 <= lines[k].1 <= v.len()
                    && v@.subrange(lines[k].0 as int, lines[k].1 as int) == ls[k],
            0 <= i <= lines.len(),
            forall|j: int| 0 <= j < i ==> trim(ls[j]) != m@,
        decreases lines.len() - i,
    {
        let (a, b) = lines[i];
        let (x, y) = trim_range(v, a, b);
        if range_equals(v, x, y, m) {
            assert(is_first_line(ls, m@, i as int));
            let ghost c = first_line(ls, m@);
            assert(c == i) by {
                if c < i {
                    assert(trim(ls[c]) != m@);
                } else if c > i {
                    assert(trim(ls[i as int]) == m@);
                }
            }
            return Some(i);
        }
        i += 1;
    }
    None
}

/// `row` padded with empty strings, or cut, to `n` fields.
fn fit_row(row: &Vec<String>, n: usize) -> (r: Vec<String>)
    ensures
        r.len() == n,
        texts(r@) == fit(texts(row@), n as nat),
{
    let mut r: Vec<String> = Vec::new();
    let mut i: usize = 0;
    while i < n
        invariant
            0 <= i <= n,
            texts(r@) == fit(texts(row@), n as nat).take(i as int),
        decreases n - i,
    {
        let ghost before = r@;
        if i < row.len() {
            r.push(row[i].clone());
        } else {
            r.push(String::new());
        }
        assert(texts(r@) =~= texts(before).push(fit(texts(row@), n as nat)[i as int]));
        assert(texts(r@) =~= fit(texts(row@), n as nat).take(i + 1));
        i += 1;
    }
    assert(fit(texts(row@), n as nat).take(n as int) =~= fit(texts(row@), n as nat));
    r
}

impl RawLiCorFile {
    /// Reads a log file: its header pairs, its three column rows and its data rows.
    pub fn parse(content: &str) -> (r: Result<RawLiCorFile, ParseError>)
        ensures
            match r {
                Ok(f) => raw_parse(content@) == Ok::<RawView, ErrorView>(f@),
                Err(e) => raw_parse(content@) == Err::<RawView, ErrorView>(e@),
            },
            r matches Ok(f) ==> is_rectangular(f@),
    {
        let v = chars_of(content);
        let lines = line_ranges(&v);
        let ghost ls = lines_of(v@);
        let hm = chars_of("[Header]");
        let dm = chars_of("[Data]");
        let h = match find_line(&v, &lines, &hm) {
            Some(h) => h,
            None => {
                return Err(
                    ParseError::InvalidHeaderFormat {
                        message: String::from_str("Missing [Header] section"),
                    },
                );
            },
        };
        let d = match find_line(&v, &lines, &dm) {
            Some(d) => d,
            None => {
                return Err(
                    ParseError::InvalidHeaderFormat {
                        message: String::from_str("Missing [Data] section"),
                    },
                );
            },
        };
        if d <= h {
            return Err(
                ParseError::InvalidHeaderFormat {
                    message: String::from_str("[Data] section must come after [Header] section"),
                },
            );
        }
        let header = Self::parse_header(&v, &lines, h + 1, d);
        assert(Seq::new((d - (h + 1)) as nat, |k: int| v@.subrange(lines[h + 1 + k].0 as int, lines[h + 1 + k].1 as int)) =~= ls.subrange(h + 1, d as int));
        let ghost body = ls.skip(d + 1);
        if lines.len() - (d + 1) < 3 {
            return Err(ParseError::EmptyDataSection);
        }
        let (a0, b0) = lines[d + 1];
        let (a1, b1) = lines[d + 2];
        let (a2, b2) = lines[d + 3];
        let cats = Self::parse_tab_separated_line(&v, a0, b0);
        let names = Self::parse_tab_separated_line(&v, a1, b1);
        let units = Self::parse_tab_separated_line(&v, a2, b2);
        assert(body[0] == ls[d + 1]);
        assert(body[1] == ls[d + 2]);
        assert(body[2] == ls[d + 3]);
        let mut n: usize = cats.len();
        if names.len() > n {
            n = names.len();
        }
        if units.len() > n {
            n = units.len();
        }
        assert(n as nat == max3(texts(cats@).len(), texts(names@).len(), texts(units@).len()));
        let column_categories = fit_row(&cats, n);
        let column_names = fit_row(&names, n);
        let units = fit_row(&units, n);
        let ghost rest = body.skip(3);
        let mut data_rows: Vec<Vec<String>> = Vec::new();
        let mut k: usize = d + 4;
        while k < lines.len()
            invariant
                ls == lines_of(v@),
                lines.len() == ls.len(),
                forall|j: int|
                    0 <= j < lines.len() ==> (#[trigger] lines[j]).0 <= lines[j].1 <= v.len()
                        && v@.subrange(lines[j].0 as int, lines[j].1 as int) == ls[j],
                d + 4 <= k <= lines.len(),
                rest == ls.skip(d + 4),
                data_rows@.map_values(|r: Vec<String>| texts(r@)) == rows_of(
                    rest.take(k - (d + 4)),
                    n as nat,
                ),
                forall|j: int|
                    0 <= j < data_rows.len() ==> (#[trigger] data_rows[j]).len() == n,
            decreases lines.len() - k,
        {
            let ghost before = data_rows@;
            let (a, b) = lines[k];
            assert(rest.take(k + 1 - (d + 4)).drop_last() =~= rest.take(k - (d + 4)));
            assert(rest.take(k + 1 - (d + 4)).last() == ls[k as int]);
            let (x, y) = trim_range(&v, a, b);
            if x < y {
                let row = Self::parse_tab_separated_line(&v, a, b);
                let fitted = fit_row(&row, n);
                data_rows.push(fitted);
                assert(data_rows@.map_values(|r: Vec<String>| texts(r@)) =~= before.map_values(
                    |r: Vec<String>| texts(r@),
                ).push(texts(fitted@)));
            } else {
                assert(trim(ls[k as int]).len() == 0);
            }
            k += 1;
        }
        assert(rest.take(lines.len() - (d + 4)) =~= rest);
        if data_rows.len() == 0 {
            return Err(ParseError::EmptyDataSection);
        }
        Ok(RawLiCorFile { header, column_categories, column_names, units, data_rows })
    }

    /// The trimmed tab-separated fields of `v[from..to]`, without empty fields at the end.
    pub fn parse_tab_separated_line(v: &Vec<char>, from: usize, to: usize) -> (r: Vec<String>)
        requires
            from <= to <= v.len(),
        ensures
            texts(r@) == fields_of(v@.subrange(from as int, to as int)),
    {
        let ghost l = v@.subrange(from as int, to as int);
        let ghost all = split(l, '\t').map_values(|f: Seq<char>| trim(f));
        let pieces = split_ranges(v, from, to, '\t');
        let mut r: Vec<String> = Vec::new();
        let mut k: usize = 0;
        while k < pieces.len()
            invariant
                l == v@.subrange(from as int, to as int),
                all == split(l, '\t').map_values(|f: Seq<char>| trim(f)),
                pieces.len() == split(l, '\t').len(),
                forall|j: int|
                    0 <= j < pieces.len() ==> from <= (#[trigger] pieces[j]).0 <= pieces[j].1 <= to
                        && v@.subrange(pieces[j].0 as int, pieces[j].1 as int) == split(l, '\t')[j],
                to <= v.len(),
                0 <= k <= pieces.len(),
                texts(r@) == all.take(k as int),
            decreases pieces.len() - k,
        {
            let (a, b) = pieces[k];
            let (x, y) = trim_range(v, a, b);
            let s = string_of(v, x, y);
            assert(all[k as int] == trim(split(l, '\t')[k as int]));
            assert(s@ == all[k as int]);
            let ghost before = r@;
            r.push(s);
            assert(r@ == before.push(s));
            assert(texts(r@) =~= texts(before).push(s@));
            assert(texts(r@) =~= all.take(k + 1));
            k += 1;
        }
        assert(texts(r@) =~= all);
        while r.len() > 0 && r[r.len() - 1].as_str().is_empty()
            invariant
                strip_trailing_empty(texts(r@)) == strip_trailing_empty(all),
            decreases r.len(),
        {
            let ghost before = r@;
            r.pop();
            assert(texts(before).drop_last() =~= texts(r@));
        }
        r
    }

    /// The key and value of a header line, split at its first tab; `None` where it has no tab.
    pub fn parse_header_line(v: &Vec<char>, from: usize, to: usize) -> (r: Option<(String, String)>)
        requires
            from <= to <= v.len(),
        ensures
            match header_pair(v@.subrange(from as int, to as int)) {
                Some(kv) => r matches Some(p) && p.0@ == kv.0 && p.1@ == kv.1,
                None => r is None,
            },
    {
        let ghost l = v@.subrange(from as int, to as int);
        match find_char(v, from, to, '\t') {
            None => {
                assert(!exists|i: int| is_first_pos(l, '\t', i));
                None
            },
            Some(i) => {
                let ghost c = choose|i: int| is_first_pos(l, '\t', i);
                assert(c == i) by {
                    if c < i {
                        assert(l[c] != '\t');
                    } else if c > i {
                        assert(l[i as int] != '\t');
                    }
                }
                let (ka, kb) = trim_range(v, from, from + i);
                let (va, vb) = trim_range(v, from + i + 1, to);
                assert(l.take(i as int) =~= v@.subrange(from as int, from + i));
                assert(l.skip(i + 1) =~= v@.subrange(from + i + 1, to as int));
                Some((string_of(v, ka, kb), string_of(v, va, vb)))
            },
        }
    }

    /// The header pairs of lines `from..to`.
    fn parse_header(v: &Vec<char>, lines: &Vec<(usize, usize)>, from: usize, to: usize) -> (r:
        HeaderMap)
        requires
            from <= to <= lines.len(),
            forall|k: int|
                0 <= k < lines.len() ==> (#[trigger] lines[k]).0 <= lines[k].1 <= v.len(),
        ensures
            r@ == header_of(
                Seq::new((to - from) as nat, |k: int| v@.subrange(lines[from + k].0 as int, lines[from + k].1 as int)),
            ),
    {
        let ghost all = Seq::new((to - from) as nat, |k: int| v@.subrange(lines[from + k].0 as int, lines[from + k].1 as int));
        let mut header = HeaderMap::new();
        let mut k: usize = from;
        while k < to
            invariant
                from <= k <= to <= lines.len(),
                forall|j: int|
                    0 <= j < lines.len() ==> (#[trigger] lines[j]).0 <= lines[j].1 <= v.len(),
                all == Seq::new((to - from) as nat, |j: int| v@.subrange(lines[from + j].0 as int, lines[from + j].1 as int)),
                header@ == header_of(all.take(k - from)),
            decreases to - k,
        {
            let (a, b) = lines[k];
            assert(all.take(k + 1 - from).drop_last() =~= all.take(k - from));
            if a < b {
                match Self::parse_header_line(v, a, b) {
                    Some(kv) => {
                        header.insert(kv.0, kv.1);
                    },
                    None => {},
                }
            } else {
                assert(!exists|i: int| is_first_pos(v@.subrange(a as int, b as int), '\t', i));
            }
            k += 1;
        }
        assert(all.take(to - from) =~= all);
        header
    }
}

} // verus!
