use vstd::prelude::*;

use crate::dictionary::DataType;
use crate::names::value_of;
use crate::text::texts;

verus! {

/// What `str::to_lowercase` returns for a text.
pub uninterp spec fn lower_of(s: Seq<char>) -> Seq<char>;

/// Relies on `str::to_lowercase`: the lower-case form of the text, a function of its characters.
#[verifier::external_body]
fn lowercase(s: &str) -> (r: String)
    ensures
        r@ == lower_of(s@),
{
    s.to_lowercase()
}

pub open spec fn is_ascii_digit(c: char) -> bool {
    0x30 <= (c as u32) && (c as u32) <= 0x39
}

pub open spec fn all_digits(s: Seq<char>) -> bool {
    s.len() > 0 && forall|i: int| 0 <= i < s.len() ==> is_ascii_digit(#[trigger] s[i])
}

/// The number of decimal digits at the start of `s`.
pub open spec fn lead_digits(s: Seq<char>) -> nat
    decreases s.len(),
{
    if s.len() > 0 && is_ascii_digit(s[0]) {
        1 + lead_digits(s.drop_first())
    } else {
        0
    }
}

pub open spec fn is_sign(c: char) -> bool {
    c == '+' || c == '-'
}

/// An optional sign followed by one or more digits.
pub open spec fn signed_digits(s: Seq<char>) -> bool {
    let t = if s.len() > 0 && is_sign(s[0]) {
        s.drop_first()
    } else {
        s
    };
    t.len() > 0 && lead_digits(t) == t.len()
}

/// Nothing, or an exponent: `e` or `E` and signed digits.
pub open spec fn exponent_ok(s: Seq<char>) -> bool {
    s.len() == 0 || ((s[0] == 'e' || s[0] == 'E') && signed_digits(s.drop_first()))
}

/// Digits, an optional point and more digits (at least one digit in all), then an exponent.
pub open spec fn decimal_number(s: Seq<char>) -> bool {
    let a = lead_digits(s);
    let r = s.skip(a as int);
    if r.len() > 0 && r[0] == '.' {
        let b = lead_digits(r.drop_first());
        a + b >= 1 && exponent_ok(r.drop_first().skip(b as int))
    } else {
        a >= 1 && exponent_ok(r)
    }
}

/// The code of `c` with an ASCII capital taken to its small letter.
pub open spec fn ascii_lower(c: char) -> u32 {
    if 0x41 <= (c as u32) && (c as u32) <= 0x5a {
        ((c as u32) + 32) as u32
    } else {
        c as u32
    }
}

pub open spec fn same_ignoring_ascii_case(s: Seq<char>, w: Seq<char>) -> bool {
    s.len() == w.len() && forall|i: int| 0 <= i < s.len() ==> ascii_lower(#[trigger] s[i]) == w[i] as u32
}

/// A float without its sign: a decimal number, or `inf`, `infinity`, `nan` in any case.
pub open spec fn unsigned_float(s: Seq<char>) -> bool {
    decimal_number(s) || same_ignoring_ascii_case(s, "inf"@) || same_ignoring_ascii_case(
        s,
        "infinity"@,
    ) || same_ignoring_ascii_case(s, "nan"@)
}

/// The texts that `f64`'s `FromStr` accepts: an optional sign, then an unsigned float.
pub open spec fn float_text(s: Seq<char>) -> bool {
    if s.len() > 0 && is_sign(s[0]) {
        unsigned_float(s.drop_first())
    } else {
        unsigned_float(s)
    }
}

/// The integer that an optional `+` or `-` followed by decimal digits denotes.
pub open spec fn signed_value(s: Seq<char>) -> Option<int> {
    if s.len() > 0 && (s[0] == '+' || s[0] == '-') {
        if all_digits(s.drop_first()) {
            if s[0] == '-' {
                Some(-value_of(s.drop_first()))
            } else {
                Some(value_of(s.drop_first()))
            }
        } else {
            None
        }
    } else if all_digits(s) {
        Some(value_of(s))
    } else {
        None
    }
}

/// What `str::parse::<i64>` gives: the value of a signed decimal text that fits in 64 bits.
pub open spec fn i64_text_value(s: Seq<char>) -> Option<i64> {
    match signed_value(s) {
        Some(v) => if i64::MIN <= v <= i64::MAX {
            Some(v as i64)
        } else {
            None
        },
        None => None,
    }
}

/// Relies on `str::parse::<i64>`: an optional sign followed by decimal digits, in range.
#[verifier::external_body]
fn parse_i64(s: &str) -> (r: Option<i64>)
    ensures
        r == i64_text_value(s@),
{
    s.parse::<i64>().ok()
}

/// A cell that stands for a missing value: empty, `-`, or `none` in any case.
pub open spec fn is_null_cell(s: Seq<char>) -> bool {
    s.len() == 0 || s == "-"@ || lower_of(s) == "none"@
}

/// The truth value of a cell: `true`, `1`, `on`, `yes` or `false`, `0`, `off`, `no`, in any case.
pub open spec fn bool_value(s: Seq<char>) -> Option<bool> {
    bool_word(lower_of(s))
}

/// The truth value that a lower-case word names.
pub open spec fn bool_word(l: Seq<char>) -> Option<bool> {
    if l == "true"@ || l == "1"@ || l == "on"@ || l == "yes"@ {
        Some(true)
    } else if l == "false"@ || l == "0"@ || l == "off"@ || l == "no"@ {
        Some(false)
    } else {
        None
    }
}

/// Whether a cell can be read as a value of type `t`.
pub open spec fn cell_parses(t: DataType, s: Seq<char>) -> bool {
    is_null_cell(s) || match t {
        DataType::Float => float_text(s),
        DataType::Integer => i64_text_value(s) is Some,
        DataType::Boolean => bool_value(s) is Some,
        DataType::String => true,
    }
}

pub open spec fn column_parses(t: DataType, vals: Seq<Seq<char>>) -> bool {
    forall|i: int| 0 <= i < vals.len() ==> cell_parses(t, #[trigger] vals[i])
}

/// The values of a column.
#[derive(Debug, Clone)]
pub enum ColumnData {
    /// Numbers, each kept as the text that `f64` parsing accepted.
    Float(Vec<Option<String>>),
    Integer(Vec<Option<i64>>),
    Boolean(Vec<Option<bool>>),
    Text(Vec<Option<String>>),
}

/// `ColumnData` as mathematical values.
pub enum ColumnView {
    Float(Seq<Option<Seq<char>>>),
    Integer(Seq<Option<i64>>),
    Boolean(Seq<Option<bool>>),
    Text(Seq<Option<Seq<char>>>),
}

pub open spec fn opt_texts(v: Seq<Option<String>>) -> Seq<Option<Seq<char>>> {
    v.map_values(
        |o: Option<String>|
            match o {
                Some(s) => Some(s@),
                None => None,
            },
    )
}

impl View for ColumnData {
    type V = ColumnView;

    open spec fn view(&self) -> ColumnView {
        match self {
            ColumnData::Float(v) => ColumnView::Float(opt_texts(v@)),
            ColumnData::Integer(v) => ColumnView::Integer(v@),
            ColumnData::Boolean(v) => ColumnView::Boolean(v@),
            ColumnData::Text(v) => ColumnView::Text(opt_texts(v@)),
        }
    }
}

impl ColumnData {
    pub open spec fn type_spec(self) -> DataType {
        match self {
            ColumnData::Float(_) => DataType::Float,
            ColumnData::Integer(_) => DataType::Integer,
            ColumnData::Boolean(_) => DataType::Boolean,
            ColumnData::Text(_) => DataType::String,
        }
    }

    /// The type of the values.
    pub fn data_type(&self) -> (r: DataType)
        ensures
            r == self.type_spec(),
    {
        match self {
            ColumnData::Float(_) => DataType::Float,
            ColumnData::Integer(_) => DataType::Integer,
            ColumnData::Boolean(_) => DataType::Boolean,
            ColumnData::Text(_) => DataType::String,
        }
    }

    /// The number of values.
    pub fn len(&self) -> (r: usize)
        ensures
            r == match self@ {
                ColumnView::Float(v) => v.len(),
                ColumnView::Integer(v) => v.len(),
                ColumnView::Boolean(v) => v.len(),
                ColumnView::Text(v) => v.len(),
            },
    {
        match self {
            ColumnData::Float(v) => v.len(),
            ColumnData::Integer(v) => v.len(),
            ColumnData::Boolean(v) => v.len(),
            ColumnData::Text(v) => v.len(),
        }
    }
}

/// A text column of the cells: empty cells are null, the others kept as they are.
pub open spec fn text_cells(vals: Seq<Seq<char>>) -> Seq<Option<Seq<char>>> {
    vals.map_values(|s: Seq<char>| if s.len() == 0 { None } else { Some(s) })
}

/// A text column of the cells: empty cells, `-` and `none` in any case are null, the others
/// kept as they are.
pub open spec fn nullable_text_cells(vals: Seq<Seq<char>>) -> Seq<Option<Seq<char>>> {
    vals.map_values(|s: Seq<char>| if is_null_cell(s) { None } else { Some(s) })
}

/// The column that cells give under type `t`: typed where every cell parses, else text.
pub open spec fn converted(t: DataType, vals: Seq<Seq<char>>) -> ColumnView {
    if t == DataType::String {
        ColumnView::Text(nullable_text_cells(vals))
    } else if column_parses(t, vals) {
        match t {
            DataType::Float => ColumnView::Float(
                vals.map_values(|s: Seq<char>| if is_null_cell(s) { None } else { Some(s) }),
            ),
            DataType::Integer => ColumnView::Integer(
                vals.map_values(|s: Seq<char>| if is_null_cell(s) { None } else { i64_text_value(s) }),
            ),
            DataType::Boolean => ColumnView::Boolean(
                vals.map_values(|s: Seq<char>| if is_null_cell(s) { None } else { bool_value(s) }),
            ),
            DataType::String => ColumnView::Text(nullable_text_cells(vals)),
        }
    } else {
        ColumnView::Text(text_cells(vals))
    }
}

/// A column with a cell that does not parse under its type is text as a whole, and keeps the
/// text of every non-empty cell as it was read.
pub proof fn law_fallback_keeps_text(t: DataType, vals: Seq<Seq<char>>, i: int)
    requires
        0 <= i < vals.len(),
        !cell_parses(t, vals[i]),
    ensures
        converted(t, vals) == ColumnView::Text(text_cells(vals)),
        forall|j: int|
            0 <= j < vals.len() && vals[j].len() > 0 ==> #[trigger] text_cells(vals)[j] == Some(
                vals[j],
            ),
        forall|j: int| 0 <= j < vals.len() && vals[j].len() == 0 ==> #[trigger] text_cells(vals)[j] is None,
{
}

fn is_digit(c: char) -> (r: bool)
    ensures
        r == is_ascii_digit(c),
{
    0x30 <= (c as u32) && (c as u32) <= 0x39
}

/// The index just past the digits that start at `i`.
fn skip_digits(v: &Vec<char>, i: usize) -> (r: usize)
    requires
        i <= v.len(),
    ensures
        i <= r <= v.len(),
        r - i == lead_digits(v@.skip(i as int)),
{
    let mut k: usize = i;
    while k < v.len() && is_digit(v[k])
        invariant
            i <= k <= v.len(),
            lead_digits(v@.skip(i as int)) == (k - i) + lead_digits(v@.skip(k as int)),
        decreases v.len() - k,
    {
        assert(v@.skip(k as int).drop_first() =~= v@.skip(k + 1));
        k += 1;
    }
    k
}

fn signed_digits_at(v: &Vec<char>, i: usize) -> (r: bool)
    requires
        i <= v.len(),
    ensures
        r == signed_digits(v@.skip(i as int)),
{
    let mut j: usize = i;
    if j < v.len() && (v[j] == '+' || v[j] == '-') {
        j += 1;
        assert(v@.skip(i as int).drop_first() =~= v@.skip(j as int));
    }
    let e = skip_digits(v, j);
    j < v.len() && e == v.len()
}

fn exponent_at(v: &Vec<char>, i: usize) -> (r: bool)
    requires
        i <= v.len(),
    ensures
        r == exponent_ok(v@.skip(i as int)),
{
    if i == v.len() {
        return true;
    }
    assert(v@.skip(i as int).drop_first() =~= v@.skip(i + 1));
    (v[i] == 'e' || v[i] == 'E') && signed_digits_at(v, i + 1)
}

fn lower_ascii(c: char) -> (r: u32)
    ensures
        r == ascii_lower(c),
{
    let u = c as u32;
    if 0x41 <= u && u <= 0x5a {
        u + 32
    } else {
        u
    }
}

fn word_at(v: &Vec<char>, i: usize, w: &str) -> (r: bool)
    requires
        i <= v.len(),
    ensures
        r == same_ignoring_ascii_case(v@.skip(i as int), w@),
{
    let wv = crate::text::chars_of(w);
    if v.len() - i != wv.len() {
        return false;
    }
    let mut k: usize = 0;
    while k < wv.len()
        invariant
            i <= v.len(),
            v.len() - i == wv.len(),
            wv@ == w@,
            0 <= k <= wv.len(),
            forall|j: int| 0 <= j < k ==> ascii_lower(#[trigger] v@.skip(i as int)[j]) == w@[j] as u32,
        decreases wv.len() - k,
    {
        if lower_ascii(v[i + k]) != wv[k] as u32 {
            assert(ascii_lower(v@.skip(i as int)[k as int]) != w@[k as int] as u32);
            return false;
        }
        k += 1;
    }
    true
}

/// Whether `f64`'s `FromStr` accepts the text.
pub fn is_float_text(s: &String) -> (r: bool)
    ensures
        r == float_text(s@),
{
    let v = crate::text::chars_of(s.as_str());
    let mut i: usize = 0;
    if v.len() > 0 && (v[0] == '+' || v[0] == '-') {
        i = 1;
        assert(v@.drop_first() =~= v@.skip(1));
    } else {
        assert(v@ =~= v@.skip(0));
    }
    let ghost u = v@.skip(i as int);
    let a = skip_digits(&v, i);
    assert(u.skip((a - i) as int) =~= v@.skip(a as int));
    let number = if a < v.len() && v[a] == '.' {
        let b = skip_digits(&v, a + 1);
        assert(v@.skip(a as int).drop_first() =~= v@.skip(a + 1));
        assert(v@.skip(a + 1).skip((b - (a + 1)) as int) =~= v@.skip(b as int));
        (a - i) + (b - (a + 1)) >= 1 && exponent_at(&v, b)
    } else {
        a - i >= 1 && exponent_at(&v, a)
    };
    assert(number == decimal_number(u));
    number || word_at(&v, i, "inf") || word_at(&v, i, "infinity") || word_at(&v, i, "nan")
}

fn equals_str(s: &String, lit: &str) -> (r: bool)
    ensures
        r == (s@ == lit@),
{
    let l = String::from_str(lit);
    *s == l
}

/// Whether a cell stands for a missing value.
pub fn is_null_value(s: &String) -> (r: bool)
    ensures
        r == is_null_cell(s@),
{
    if s.as_str().is_empty() || equals_str(s, "-") {
        return true;
    }
    let l = lowercase(s.as_str());
    is_none_word(&l)
}

/// Whether lower-case text is the word `none`.
pub fn is_none_word(l: &String) -> (r: bool)
    ensures
        r == (l@ == "none"@),
{
    equals_str(l, "none")
}

/// The truth value that a lower-case word names: `true`, `1`, `on`, `yes` or `false`, `0`,
/// `off`, `no`.
pub fn bool_of_lowered(l: &String) -> (r: Option<bool>)
    ensures
        r == bool_word(l@),
{
    if equals_str(l, "true") || equals_str(l, "1") || equals_str(l, "on") || equals_str(l, "yes") {
        Some(true)
    } else if equals_str(l, "false") || equals_str(l, "0") || equals_str(l, "off") || equals_str(l, "no") {
        Some(false)
    } else {
        None
    }
}

/// The truth value of a cell, if it has one.
pub fn parse_bool(s: &String) -> (r: Option<bool>)
    ensures
        r == bool_value(s@),
{
    let l = lowercase(s.as_str());
    bool_of_lowered(&l)
}

/// The cells as a text column.
fn to_text(vals: &Vec<String>) -> (r: Vec<Option<String>>)
    ensures
        opt_texts(r@) == text_cells(texts(vals@)),
{
    let mut r: Vec<Option<String>> = Vec::new();
    let mut i: usize = 0;
    while i < vals.len()
        invariant
            0 <= i <= vals.len(),
            opt_texts(r@) == text_cells(texts(vals@)).take(i as int),
        decreases vals.len() - i,
    {
        let ghost before = r@;
        if vals[i].as_str().is_empty() {
            r.push(None);
        } else {
            r.push(Some(vals[i].clone()));
        }
        assert(opt_texts(r@) =~= opt_texts(before).push(text_cells(texts(vals@))[i as int]));
        assert(opt_texts(r@) =~= text_cells(texts(vals@)).take(i + 1));
        i += 1;
    }
    assert(text_cells(texts(vals@)).take(vals.len() as int) =~= text_cells(texts(vals@)));
    r
}

/// The cells as a text column with null markers taken to nulls.
fn to_nullable_text(vals: &Vec<String>) -> (r: Vec<Option<String>>)
    ensures
        opt_texts(r@) == nullable_text_cells(texts(vals@)),
{
    let mut r: Vec<Option<String>> = Vec::new();
    let mut i: usize = 0;
    while i < vals.len()
        invariant
            0 <= i <= vals.len(),
            opt_texts(r@) == nullable_text_cells(texts(vals@)).take(i as int),
        decreases vals.len() - i,
    {
        let ghost before = r@;
        if is_null_value(&vals[i]) {
            r.push(None);
        } else {
            r.push(Some(vals[i].clone()));
        }
        assert(opt_texts(r@) =~= opt_texts(before).push(nullable_text_cells(texts(vals@))[i as int]));
        assert(opt_texts(r@) =~= nullable_text_cells(texts(vals@)).take(i + 1));
        i += 1;
    }
    assert(nullable_text_cells(texts(vals@)).take(vals.len() as int) =~= nullable_text_cells(texts(vals@)));
    r
}

/// The cells as a column of `t`; the whole column becomes text where any cell does not parse.
pub fn convert_column(t: DataType, vals: &Vec<String>) -> (r: ColumnData)
    ensures
        r@ == converted(t, texts(vals@)),
{
    let ghost cells = texts(vals@);
    match t {
        DataType::Float => {
            let mut out: Vec<Option<String>> = Vec::new();
            let mut i: usize = 0;
            while i < vals.len()
                invariant
                    cells == texts(vals@),
                    0 <= i <= vals.len(),
                    forall|j: int| 0 <= j < i ==> cell_parses(t, #[trigger] cells[j]),
                    opt_texts(out@) == cells.map_values(
                        |s: Seq<char>| if is_null_cell(s) { None } else { Some(s) },
                    ).take(i as int),
                    t == DataType::Float,
                decreases vals.len() - i,
            {
                let ghost before = out@;
                if is_null_value(&vals[i]) {
                    out.push(None);
                } else if is_float_text(&vals[i]) {
                    out.push(Some(vals[i].clone()));
                } else {
                    assert(cells[i as int] == vals@[i as int]@);
                    assert(!cell_parses(t, cells[i as int]));
                    return ColumnData::Text(to_text(vals));
                }
                assert(opt_texts(out@) =~= opt_texts(before).push(
                    cells.map_values(|s: Seq<char>| if is_null_cell(s) { None } else { Some(s) })[i as int],
                ));
                assert(opt_texts(out@) =~= cells.map_values(
                    |s: Seq<char>| if is_null_cell(s) { None } else { Some(s) },
                ).take(i + 1));
                i += 1;
            }
            assert(cells.map_values(|s: Seq<char>| if is_null_cell(s) { None } else { Some(s) }).take(
                vals.len() as int,
            ) =~= cells.map_values(|s: Seq<char>| if is_null_cell(s) { None } else { Some(s) }));
            ColumnData::Float(out)
        },
        DataType::Integer => {
            let mut out: Vec<Option<i64>> = Vec::new();
            let mut i: usize = 0;
            while i < vals.len()
                invariant
                    cells == texts(vals@),
                    0 <= i <= vals.len(),
                    forall|j: int| 0 <= j < i ==> cell_parses(t, #[trigger] cells[j]),
                    out@ == cells.map_values(
                        |s: Seq<char>| if is_null_cell(s) { None } else { i64_text_value(s) },
                    ).take(i as int),
                    t == DataType::Integer,
                decreases vals.len() - i,
            {
                if is_null_value(&vals[i]) {
                    out.push(None);
                } else {
                    match parse_i64(vals[i].as_str()) {
                        Some(x) => out.push(Some(x)),
                        None => {
                            assert(cells[i as int] == vals@[i as int]@);
                            assert(!cell_parses(t, cells[i as int]));
                            return ColumnData::Text(to_text(vals));
                        },
                    }
                }
                assert(out@ =~= cells.map_values(
                    |s: Seq<char>| if is_null_cell(s) { None } else { i64_text_value(s) },
                ).take(i + 1));
                i += 1;
            }
            assert(cells.map_values(
                |s: Seq<char>| if is_null_cell(s) { None } else { i64_text_value(s) },
            ).take(vals.len() as int) =~= cells.map_values(
                |s: Seq<char>| if is_null_cell(s) { None } else { i64_text_value(s) },
            ));
            ColumnData::Integer(out)
        },
        DataType::Boolean => {
            let mut out: Vec<Option<bool>> = Vec::new();
            let mut i: usize = 0;
            while i < vals.len()
                invariant
                    cells == texts(vals@),
                    0 <= i <= vals.len(),
                    forall|j: int| 0 <= j < i ==> cell_parses(t, #[trigger] cells[j]),
                    out@ == cells.map_values(
                        |s: Seq<char>| if is_null_cell(s) { None } else { bool_value(s) },
                    ).take(i as int),
                    t == DataType::Boolean,
                decreases vals.len() - i,
            {
                if is_null_value(&vals[i]) {
                    out.push(None);
                } else {
                    match parse_bool(&vals[i]) {
                        Some(x) => out.push(Some(x)),
                        None => {
                            assert(cells[i as int] == vals@[i as int]@);
                            assert(!cell_parses(t, cells[i as int]));
                            return ColumnData::Text(to_text(vals));
                        },
                    }
                }
                assert(out@ =~= cells.map_values(
                    |s: Seq<char>| if is_null_cell(s) { None } else { bool_value(s) },
                ).take(i + 1));
                i += 1;
            }
            assert(cells.map_values(
                |s: Seq<char>| if is_null_cell(s) { None } else { bool_value(s) },
            ).take(vals.len() as int) =~= cells.map_values(
                |s: Seq<char>| if is_null_cell(s) { None } else { bool_value(s) },
            ));
            ColumnData::Boolean(out)
        },
        DataType::String => ColumnData::Text(to_nullable_text(vals)),
    }
}

} // verus!
