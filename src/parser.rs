use vstd::prelude::*;

use crate::configs::{check_columns_spec, ConfigKind};
use crate::convert::{convert_column, converted, ColumnData, ColumnView};
use crate::devices::{DeviceKind, LiCorMetadata, MetadataView};
use crate::dictionary::{find_def, inferred_type, DataType, DefView, VariableDictionary};
use crate::errors::{ErrorView, ParseError};
use crate::names::{law_unique_name_is_fresh, make_unique, unique_name};
use crate::parsing::{raw_parse, RawLiCorFile, RawView};
use crate::text::texts;

verus! {

/// What the output knows of one column.
#[derive(Debug, Clone)]
pub struct VariableInfo {
    /// The column's name in the output, made unique.
    pub internal_name: String,
    pub display_label: String,
    pub units: Option<String>,
    pub description: String,
    pub data_type: DataType,
    pub column_category: String,
}

/// `VariableInfo` as mathematical values.
pub struct InfoView {
    pub internal_name: Seq<char>,
    pub display_label: Seq<char>,
    pub units: Option<Seq<char>>,
    pub description: Seq<char>,
    pub data_type: DataType,
    pub column_category: Seq<char>,
}

impl View for VariableInfo {
    type V = InfoView;

    open spec fn view(&self) -> InfoView {
        InfoView {
            internal_name: self.internal_name@,
            display_label: self.display_label@,
            units: match self.units {
                Some(u) => Some(u@),
                None => None,
            },
            description: self.description@,
            data_type: self.data_type,
            column_category: self.column_category@,
        }
    }
}

/// A named column of typed values.
#[derive(Debug, Clone)]
pub struct TypedColumn {
    pub name: String,
    pub data: ColumnData,
}

/// `TypedColumn` as mathematical values.
pub struct ColumnOut {
    pub name: Seq<char>,
    pub data: ColumnView,
}

impl View for TypedColumn {
    type V = ColumnOut;

    open spec fn view(&self) -> ColumnOut {
        ColumnOut { name: self.name@, data: self.data@ }
    }
}

/// A parsed file: the device metadata, the typed columns, and what is known of each column.
#[derive(Debug, Clone)]
pub struct LiCorData {
    pub metadata: LiCorMetadata,
    pub columns: Vec<TypedColumn>,
    pub variable_info: Vec<VariableInfo>,
}

/// `LiCorData` as mathematical values.
pub struct DataView {
    pub metadata: MetadataView,
    pub columns: Seq<ColumnOut>,
    pub variable_info: Seq<InfoView>,
}

pub open spec fn columns_view(c: Seq<TypedColumn>) -> Seq<ColumnOut> {
    c.map_values(|x: TypedColumn| x@)
}

pub open spec fn infos_view(i: Seq<VariableInfo>) -> Seq<InfoView> {
    i.map_values(|x: VariableInfo| x@)
}

impl View for LiCorData {
    type V = DataView;

    open spec fn view(&self) -> DataView {
        DataView {
            metadata: self.metadata@,
            columns: columns_view(self.columns@),
            variable_info: infos_view(self.variable_info@),
        }
    }
}

/// The `i`-th text of `s`, or the empty text past its end.
pub open spec fn get_or_empty(s: Seq<Seq<char>>, i: int) -> Seq<char> {
    if 0 <= i < s.len() {
        s[i]
    } else {
        Seq::<char>::empty()
    }
}

/// The cells of column `c`, one per data row.
pub open spec fn column_cells(rows: Seq<Seq<Seq<char>>>, c: int) -> Seq<Seq<char>> {
    rows.map_values(|row: Seq<Seq<char>>| get_or_empty(row, c))
}

/// What the output says of column `c`, under the unique name `unique`.
pub open spec fn info_for(raw: RawView, dict: Seq<DefView>, c: int, unique: Seq<char>) -> InfoView {
    let name = raw.column_names[c];
    let category = get_or_empty(raw.column_categories, c);
    match find_def(dict, name) {
        Some(d) => InfoView {
            internal_name: unique,
            display_label: d.display_label,
            units: d.units,
            description: d.description,
            data_type: d.data_type,
            column_category: category,
        },
        None => {
            let units = get_or_empty(raw.units, c);
            InfoView {
                internal_name: unique,
                display_label: name,
                units: if units.len() == 0 {
                    None
                } else {
                    Some(units)
                },
                description: "Unknown variable: "@ + name,
                data_type: inferred_type(units),
                column_category: category,
            }
        },
    }
}

pub open spec fn info_names(infos: Seq<InfoView>) -> Seq<Seq<char>> {
    infos.map_values(|i: InfoView| i.internal_name)
}

/// The columns and their descriptions that the first `c` columns of `raw` give.
pub open spec fn build_upto(raw: RawView, dict: Seq<DefView>, c: nat) -> (Seq<ColumnOut>, Seq<InfoView>)
    decreases c,
{
    if c == 0 {
        (Seq::empty(), Seq::empty())
    } else {
        let prev = build_upto(raw, dict, (c - 1) as nat);
        let name = raw.column_names[c - 1];
        if name.len() == 0 {
            prev
        } else {
            let unique = unique_name(name, info_names(prev.1));
            let info = info_for(raw, dict, c - 1, unique);
            let col = ColumnOut {
                name: unique,
                data: converted(info.data_type, column_cells(raw.data_rows, c - 1)),
            };
            (prev.0.push(col), prev.1.push(info))
        }
    }
}

/// The typed table that `raw` gives; it fails where no column survives.
pub open spec fn build_spec(raw: RawView, dict: Seq<DefView>) -> Result<
    (Seq<ColumnOut>, Seq<InfoView>),
    ErrorView,
> {
    if raw.data_rows.len() == 0 {
        Err(ErrorView::EmptyDataSection)
    } else {
        let built = build_upto(raw, dict, raw.column_names.len());
        if built.0.len() == 0 {
            Err(ErrorView::EmptyDataSection)
        } else {
            Ok(built)
        }
    }
}

fn get_or_new(v: &Vec<String>, i: usize) -> (r: String)
    ensures
        r@ == get_or_empty(texts(v@), i as int),
{
    if i < v.len() {
        v[i].clone()
    } else {
        String::new()
    }
}

/// The cells of column `c`, one per row; a row too short gives an empty cell.
fn column_values(rows: &Vec<Vec<String>>, c: usize) -> (r: Vec<String>)
    ensures
        texts(r@) == column_cells(rows@.map_values(|row: Vec<String>| texts(row@)), c as int),
{
    let ghost all = column_cells(rows@.map_values(|row: Vec<String>| texts(row@)), c as int);
    let mut r: Vec<String> = Vec::new();
    let mut i: usize = 0;
    while i < rows.len()
        invariant
            all == column_cells(rows@.map_values(|row: Vec<String>| texts(row@)), c as int),
            0 <= i <= rows.len(),
            texts(r@) == all.take(i as int),
        decreases rows.len() - i,
    {
        let ghost before = r@;
        let s = get_or_new(&rows[i], c);
        r.push(s);
        assert(texts(r@) =~= texts(before).push(all[i as int]));
        assert(texts(r@) =~= all.take(i + 1));
        i += 1;
    }
    assert(all.take(rows.len() as int) =~= all);
    r
}

fn describe(raw: &RawLiCorFile, dictionary: &VariableDictionary, c: usize, unique: String) -> (r:
    VariableInfo)
    requires
        c < raw.column_names.len(),
    ensures
        r@ == info_for(raw@, dictionary@, c as int, unique@),
{
    let name = &raw.column_names[c];
    let category = get_or_new(&raw.column_categories, c);
    match dictionary.lookup(name) {
        Some(def) => VariableInfo {
            internal_name: unique,
            display_label: def.display_label.clone(),
            units: match &def.units {
                Some(u) => Some(u.clone()),
                None => None,
            },
            description: def.description.clone(),
            data_type: def.data_type,
            column_category: category,
        },
        None => {
            let units = get_or_new(&raw.units, c);
            let data_type = DataType::infer_from_units(units.as_str());
            let mut description = String::from_str("Unknown variable: ");
            description.append(name.as_str());
            VariableInfo {
                internal_name: unique,
                display_label: name.clone(),
                units: if units.as_str().is_empty() {
                    None
                } else {
                    Some(units)
                },
                description,
                data_type,
                column_category: category,
            }
        },
    }
}

impl LiCorData {
    /// The typed columns of a raw file: columns without a name are dropped, repeated names
    /// get `_1`, `_2`, ..., and each column is converted under the type that the dictionary
    /// gives or its units suggest, falling back to text as a whole.
    pub fn build_typed_columns(raw: &RawLiCorFile, dictionary: &VariableDictionary) -> (r: Result<
        (Vec<TypedColumn>, Vec<VariableInfo>),
        ParseError,
    >)
        ensures
            match r {
                Ok(p) => build_spec(raw@, dictionary@) == Ok::<
                    (Seq<ColumnOut>, Seq<InfoView>),
                    ErrorView,
                >((columns_view(p.0@), infos_view(p.1@))),
                Err(e) => build_spec(raw@, dictionary@) == Err::<
                    (Seq<ColumnOut>, Seq<InfoView>),
                    ErrorView,
                >(e@),
            },
    {
        if raw.data_rows.len() == 0 {
            return Err(ParseError::EmptyDataSection);
        }
        let mut columns: Vec<TypedColumn> = Vec::new();
        let mut infos: Vec<VariableInfo> = Vec::new();
        let mut used: Vec<String> = Vec::new();
        let mut c: usize = 0;
        while c < raw.column_names.len()
            invariant
                0 <= c <= raw.column_names.len(),
                build_upto(raw@, dictionary@, c as nat) == (
                    columns_view(columns@),
                    infos_view(infos@),
                ),
                texts(used@) == info_names(infos_view(infos@)),
            decreases raw.column_names.len() - c,
        {
            let ghost prev_cols = columns@;
            let ghost prev_infos = infos@;
            let ghost prev_used = used@;
            let name = &raw.column_names[c];
            assert(raw@.column_names[c as int] == name@);
            if !name.as_str().is_empty() {
                let unique = make_unique(name, &used);
                let info = describe(raw, dictionary, c, unique.clone());
                let values = column_values(&raw.data_rows, c);
                let data = convert_column(info.data_type, &values);
                used.push(unique.clone());
                columns.push(TypedColumn { name: unique, data });
                infos.push(info);
                assert(columns_view(columns@) =~= columns_view(prev_cols).push(columns@.last()@));
                assert(infos_view(infos@) =~= infos_view(prev_infos).push(infos@.last()@));
                assert(texts(used@) =~= texts(prev_used).push(unique@));
                assert(info_names(infos_view(infos@)) =~= info_names(infos_view(prev_infos)).push(
                    unique@,
                ));
            }
            c += 1;
        }
        if columns.len() == 0 {
            return Err(ParseError::EmptyDataSection);
        }
        Ok((columns, infos))
    }
}

/// The columns that the first `c` columns of a file give carry pairwise distinct names, and each
/// column is named as its description is.
pub proof fn law_output_names_are_distinct(raw: RawView, dict: Seq<DefView>, c: nat)
    requires
        c <= raw.column_names.len(),
    ensures
        build_upto(raw, dict, c).0.len() == build_upto(raw, dict, c).1.len(),
        forall|i: int, j: int|
            0 <= i < j < build_upto(raw, dict, c).1.len() ==> (#[trigger] build_upto(raw, dict, c).1[i]).internal_name
                != (#[trigger] build_upto(raw, dict, c).1[j]).internal_name,
        forall|i: int|
            0 <= i < build_upto(raw, dict, c).0.len() ==> (#[trigger] build_upto(raw, dict, c).0[i]).name
                == build_upto(raw, dict, c).1[i].internal_name,
    decreases c,
{
    if c > 0 {
        law_output_names_are_distinct(raw, dict, (c - 1) as nat);
        let prev = build_upto(raw, dict, (c - 1) as nat);
        let name = raw.column_names[c - 1];
        if name.len() > 0 {
            let names = info_names(prev.1);
            law_unique_name_is_fresh(name, names);
            let cur = build_upto(raw, dict, c);
            assert forall|i: int, j: int| 0 <= i < j < cur.1.len() implies (#[trigger] cur.1[i]).internal_name
                != (#[trigger] cur.1[j]).internal_name by {
                if j == cur.1.len() - 1 {
                    assert(names[i] == cur.1[i].internal_name);
                    assert(cur.1[j].internal_name == unique_name(name, names));
                } else {
                    assert(cur.1[i] == prev.1[i]);
                    assert(cur.1[j] == prev.1[j]);
                }
            }
            assert forall|i: int| 0 <= i < cur.0.len() implies (#[trigger] cur.0[i]).name
                == cur.1[i].internal_name by {
                if i < prev.0.len() {
                    assert(cur.0[i] == prev.0[i]);
                    assert(cur.1[i] == prev.1[i]);
                }
            }
        }
    }
}

/// What parsing `content` gives for a device and a configuration: the raw file is read,
/// its header checked and its metadata taken, its columns checked, then its table typed.
pub open spec fn parse_spec(
    device: DeviceKind,
    config: ConfigKind,
    dict: Seq<DefView>,
    content: Seq<char>,
) -> Result<DataView, ErrorView> {
    match raw_parse(content) {
        Err(e) => Err(e),
        Ok(raw) => match device.validate_spec(raw.header) {
            Err(e) => Err(e),
            Ok(_) => match device.metadata_spec(raw.header) {
                Err(e) => Err(e),
                Ok(m) => match check_columns_spec(
                    config.required_spec(),
                    config.name_spec(),
                    raw.column_names,
                ) {
                    Err(e) => Err(e),
                    Ok(_) => match build_spec(raw, dict) {
                        Err(e) => Err(e),
                        Ok(b) => Ok(DataView { metadata: m, columns: b.0, variable_info: b.1 }),
                    },
                },
            },
        },
    }
}

/// A parse result as mathematical values.
pub open spec fn result_view(r: Result<LiCorData, ParseError>) -> Result<DataView, ErrorView> {
    match r {
        Ok(d) => Ok(d@),
        Err(e) => Err(e@),
    }
}

/// A parser for the files of one device in one measurement configuration.
pub struct LiCorParser<'a> {
    pub device: DeviceKind,
    pub config: ConfigKind,
    pub dictionary: &'a VariableDictionary,
}

impl<'a> LiCorParser<'a> {
    pub fn new(device: DeviceKind, config: ConfigKind, dictionary: &'a VariableDictionary) -> (r:
        LiCorParser<'a>)
        ensures
            r.device == device,
            r.config == config,
            r.dictionary == dictionary,
    {
        LiCorParser { device, config, dictionary }
    }

    /// Parses the text of a log file into a typed table.
    pub fn parse_content(&self, content: &str) -> (r: Result<LiCorData, ParseError>)
        ensures
            result_view(r) == parse_spec(self.device, self.config, self.dictionary@, content@),
    {
        let raw = match RawLiCorFile::parse(content) {
            Ok(raw) => raw,
            Err(e) => {
                return Err(e);
            },
        };
        match self.device.validate_header(&raw.header) {
            Ok(()) => {},
            Err(e) => {
                return Err(e);
            },
        }
        let metadata = match self.device.parse_metadata(&raw.header) {
            Ok(m) => m,
            Err(e) => {
                return Err(e);
            },
        };
        match self.config.validate_columns(&raw.column_names) {
            Ok(()) => {},
            Err(e) => {
                return Err(e);
            },
        }
        match LiCorData::build_typed_columns(&raw, self.dictionary) {
            Ok((columns, variable_info)) => Ok(LiCorData { metadata, columns, variable_info }),
            Err(e) => Err(e),
        }
    }
}

/// Parsing a text twice gives the same result: every result that `parse_content` may return
/// for a device, a configuration, a dictionary and a text is one and the same value.
pub proof fn law_parse_is_repeatable(
    device: DeviceKind,
    config: ConfigKind,
    dict: Seq<DefView>,
    content: Seq<char>,
    first: Result<LiCorData, ParseError>,
    second: Result<LiCorData, ParseError>,
)
    requires
        result_view(first) == parse_spec(device, config, dict, content),
        result_view(second) == parse_spec(device, config, dict, content),
    ensures
        result_view(first) == result_view(second),
{
}

} // verus!
