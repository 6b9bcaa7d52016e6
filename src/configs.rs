use vstd::prelude::*;

use crate::errors::{ErrorView, ParseError};
use crate::text::texts;

verus! {

/// The first of `required` that `columns` lacks.
pub open spec fn first_missing(required: Seq<Seq<char>>, columns: Seq<Seq<char>>) -> Option<
    Seq<char>,
>
    decreases required.len(),
{
    if required.len() == 0 {
        None
    } else if !columns.contains(required[0]) {
        Some(required[0])
    } else {
        first_missing(required.drop_first(), columns)
    }
}

/// The outcome of checking `columns` against a configuration: the first missing variable fails.
pub open spec fn check_columns_spec(
    required: Seq<Seq<char>>,
    config: Seq<char>,
    columns: Seq<Seq<char>>,
) -> Result<(), ErrorView> {
    match first_missing(required, columns) {
        Some(v) => Err(ErrorView::MissingRequiredVariable { variable: v, config }),
        None => Ok(()),
    }
}

pub open spec fn str_texts(v: Seq<&str>) -> Seq<Seq<char>> {
    v.map_values(|s: &str| s@)
}

/// Whether `columns` holds `name`.
fn has_column(columns: &Vec<String>, name: &String) -> (r: bool)
    ensures
        r == texts(columns@).contains(name@),
{
    let mut i: usize = 0;
    while i < columns.len()
        invariant
            0 <= i <= columns.len(),
            forall|j: int| 0 <= j < i ==> columns@[j]@ != name@,
        decreases columns.len() - i,
    {
        if columns[i] == *name {
            assert(texts(columns@)[i as int] == name@);
            return true;
        }
        i += 1;
    }
    assert(!texts(columns@).contains(name@)) by {
        if texts(columns@).contains(name@) {
            let j = choose|j: int| 0 <= j < texts(columns@).len() && texts(columns@)[j] == name@;
            assert(columns@[j]@ == name@);
        }
    }
    false
}

/// Checks that `columns` holds every name of `required`, stopping at the first that it lacks.
pub fn check_columns(required: &Vec<&str>, config: &str, columns: &Vec<String>) -> (r: Result<
    (),
    ParseError,
>)
    ensures
        match r {
            Ok(()) => check_columns_spec(str_texts(required@), config@, texts(columns@)) is Ok,
            Err(e) => check_columns_spec(str_texts(required@), config@, texts(columns@)) == Err::<
                (),
                ErrorView,
            >(e@),
        },
{
    let ghost req = str_texts(required@);
    let mut i: usize = 0;
    assert(req.skip(0) =~= req);
    while i < required.len()
        invariant
            req == str_texts(required@),
            0 <= i <= required.len(),
            first_missing(req, texts(columns@)) == first_missing(req.skip(i as int), texts(columns@)),
        decreases required.len() - i,
    {
        let name = String::from_str(required[i]);
        assert(req.skip(i as int)[0] == name@);
        if !has_column(columns, &name) {
            return Err(ParseError::MissingRequiredVariable { variable: name, config: String::from_str(config) });
        }
        assert(req.skip(i as int).drop_first() =~= req.skip(i + 1));
        i += 1;
    }
    Ok(())
}

pub open spec fn standard_vars() -> Seq<Seq<char>> {
    seq![
        "obs"@,
        "A"@,
        "E"@,
        "Ca"@,
        "Ci"@,
        "gsw"@,
        "gbw"@,
        "Tleaf"@,
        "Tair"@,
        "Flow"@,
        "Pa"@,
    ]
}

pub open spec fn fluorometer_vars() -> Seq<Seq<char>> {
    standard_vars() + seq![
        "F"@,
        "Fm'"@,
        "Fo'"@,
        "PhiPS2"@,
        "ETR"@,
        "qP"@,
        "NPQ"@,
    ]
}

pub open spec fn aquatic_vars() -> Seq<Seq<char>> {
    seq!["obs"@, "Qabs"@, "Qin"@, "Qout"@, "A"@, "E"@, "Pa"@]
}

pub open spec fn soil_vars() -> Seq<Seq<char>> {
    seq!["obs"@, "A"@, "Tsoil"@, "VWC"@, "Pa"@, "Flow"@]
}

/// A measurement configuration: the columns that a file of it must hold.
#[derive(Debug, Clone, Copy, PartialEq, Eq, Structural)]
pub enum ConfigKind {
    Standard,
    Fluorometer,
    Aquatic,
    Soil,
}

impl ConfigKind {
    pub open spec fn name_spec(self) -> Seq<char> {
        match self {
            ConfigKind::Standard => "standard"@,
            ConfigKind::Fluorometer => "fluorometer"@,
            ConfigKind::Aquatic => "aquatic"@,
            ConfigKind::Soil => "soil"@,
        }
    }

    pub open spec fn required_spec(self) -> Seq<Seq<char>> {
        match self {
            ConfigKind::Standard => standard_vars(),
            ConfigKind::Fluorometer => fluorometer_vars(),
            ConfigKind::Aquatic => aquatic_vars(),
            ConfigKind::Soil => soil_vars(),
        }
    }

    /// The configuration's name.
    pub fn config_name(self) -> (r: &'static str)
        ensures
            r@ == self.name_spec(),
    {
        match self {
            ConfigKind::Standard => "standard",
            ConfigKind::Fluorometer => "fluorometer",
            ConfigKind::Aquatic => "aquatic",
            ConfigKind::Soil => "soil",
        }
    }

    /// The variables that a file of this configuration must hold, in the order checked.
    pub fn expected_variables(self) -> (r: Vec<&'static str>)
        ensures
            str_texts(r@) == self.required_spec(),
    {
        let r = match self {
            ConfigKind::Standard => vec![
                "obs",
                "A",
                "E",
                "Ca",
                "Ci",
                "gsw",
                "gbw",
                "Tleaf",
                "Tair",
                "Flow",
                "Pa",
            ],
            ConfigKind::Fluorometer => vec![
                "obs",
                "A",
                "E",
                "Ca",
                "Ci",
                "gsw",
                "gbw",
                "Tleaf",
                "Tair",
                "Flow",
                "Pa",
                "F",
                "Fm'",
                "Fo'",
                "PhiPS2",
                "ETR",
                "qP",
                "NPQ",
            ],
            ConfigKind::Aquatic => vec!["obs", "Qabs", "Qin", "Qout", "A", "E", "Pa"],
            ConfigKind::Soil => vec!["obs", "A", "Tsoil", "VWC", "Pa", "Flow"],
        };
        assert(str_texts(r@) =~= self.required_spec());
        r
    }

    /// Checks that `columns` holds every required variable; the first one missing is reported.
    pub fn validate_columns(self, columns: &Vec<String>) -> (r: Result<(), ParseError>)
        ensures
            match r {
                Ok(()) => check_columns_spec(self.required_spec(), self.name_spec(), texts(columns@)) is Ok,
                Err(e) => check_columns_spec(self.required_spec(), self.name_spec(), texts(columns@))
                    == Err::<(), ErrorView>(e@),
            },
    {
        let required = self.expected_variables();
        check_columns(&required, self.config_name(), columns)
    }
}

/// Gas exchange measurements.
pub struct ConfigStandard;

/// Gas exchange with chlorophyll fluorescence.
pub struct ConfigFluorometer;

/// Measurements in the aquatic chamber.
pub struct ConfigAquatic;

/// Soil respiration measurements.
pub struct ConfigSoil;

impl ConfigStandard {
    pub fn expected_variables() -> (r: Vec<&'static str>)
        ensures
            str_texts(r@) == standard_vars(),
    {
        ConfigKind::Standard.expected_variables()
    }

    pub fn validate_columns(columns: &Vec<String>) -> (r: Result<(), ParseError>)
        ensures
            match r {
                Ok(()) => check_columns_spec(standard_vars(), "standard"@, texts(columns@)) is Ok,
                Err(e) => check_columns_spec(standard_vars(), "standard"@, texts(columns@)) == Err::<
                    (),
                    ErrorView,
                >(e@),
            },
    {
        ConfigKind::Standard.validate_columns(columns)
    }
}

impl ConfigFluorometer {
    pub fn expected_variables() -> (r: Vec<&'static str>)
        ensures
            str_texts(r@) == fluorometer_vars(),
    {
        ConfigKind::Fluorometer.expected_variables()
    }

    pub fn validate_columns(columns: &Vec<String>) -> (r: Result<(), ParseError>)
        ensures
            match r {
                Ok(()) => check_columns_spec(fluorometer_vars(), "fluorometer"@, texts(columns@)) is Ok,
                Err(e) => check_columns_spec(fluorometer_vars(), "fluorometer"@, texts(columns@))
                    == Err::<(), ErrorView>(e@),
            },
    {
        ConfigKind::Fluorometer.validate_columns(columns)
    }
}

impl ConfigAquatic {
    pub fn expected_variables() -> (r: Vec<&'static str>)
        ensures
            str_texts(r@) == aquatic_vars(),
    {
        ConfigKind::Aquatic.expected_variables()
    }

    pub fn validate_columns(columns: &Vec<String>) -> (r: Result<(), ParseError>)
        ensures
            match r {
                Ok(()) => check_columns_spec(aquatic_vars(), "aquatic"@, texts(columns@)) is Ok,
                Err(e) => check_columns_spec(aquatic_vars(), "aquatic"@, texts(columns@)) == Err::<
                    (),
                    ErrorView,
                >(e@),
            },
    {
        ConfigKind::Aquatic.validate_columns(columns)
    }
}

impl ConfigSoil {
    pub fn expected_variables() -> (r: Vec<&'static str>)
        ensures
            str_texts(r@) == soil_vars(),
    {
        ConfigKind::Soil.expected_variables()
    }

    pub fn validate_columns(columns: &Vec<String>) -> (r: Result<(), ParseError>)
        ensures
            match r {
                Ok(()) => check_columns_spec(soil_vars(), "soil"@, texts(columns@)) is Ok,
                Err(e) => check_columns_spec(soil_vars(), "soil"@, texts(columns@)) == Err::<
                    (),
                    ErrorView,
                >(e@),
            },
    {
        ConfigKind::Soil.validate_columns(columns)
    }
}

} // verus!
