use vstd::prelude::*;

use crate::text::{contains_str, contains_text};

verus! {

/// The type of a column's values.
#[derive(Debug, Clone, Copy, PartialEq, Eq, Structural)]
pub enum DataType {
    Float,
    Integer,
    String,
    Boolean,
}

/// The unit markers whose presence makes a column of unknown name numeric.
pub open spec fn float_unit_marker(u: Seq<char>) -> bool {
    contains_text(u, "V"@) || contains_text(u, "µmol"@) || contains_text(u, "mmol"@)
        || contains_text(u, "kPa"@) || contains_text(u, "C"@) || contains_text(u, "m-2"@)
        || contains_text(u, "s-1"@) || contains_text(u, "cm2"@)
}

/// The type that a unit text suggests.
pub open spec fn inferred_type(u: Seq<char>) -> DataType {
    if u.len() == 0 {
        DataType::String
    } else if float_unit_marker(u) {
        DataType::Float
    } else {
        DataType::String
    }
}

impl DataType {
    /// The type that a unit text suggests: a physical unit (voltage, concentration, pressure,
    /// temperature, per area, per time, area) makes a column numeric, anything else textual.
    pub fn infer_from_units(units: &str) -> (r: DataType)
        ensures
            r == inferred_type(units@),
    {
        if units.is_empty() {
            DataType::String
        } else if contains_str(units, "V") || contains_str(units, "µmol") || contains_str(
            units,
            "mmol",
        ) || contains_str(units, "kPa") || contains_str(units, "C") || contains_str(units, "m-2")
            || contains_str(units, "s-1") || contains_str(units, "cm2") {
            DataType::Float
        } else {
            DataType::String
        }
    }
}

/// One entry of the variable dictionary.
#[derive(Debug, Clone)]
pub struct VariableDef {
    pub internal_name: String,
    pub display_label: String,
    pub units: Option<String>,
    pub description: String,
    pub data_type: DataType,
}

/// `VariableDef` as mathematical values.
pub struct DefView {
    pub internal_name: Seq<char>,
    pub display_label: Seq<char>,
    pub units: Option<Seq<char>>,
    pub description: Seq<char>,
    pub data_type: DataType,
}

impl View for VariableDef {
    type V = DefView;

    open spec fn view(&self) -> DefView {
        DefView {
            internal_name: self.internal_name@,
            display_label: self.display_label@,
            units: match self.units {
                Some(u) => Some(u@),
                None => None,
            },
            description: self.description@,
            data_type: self.data_type,
        }
    }
}

impl VariableDef {
    /// A dictionary entry read from its four texts; its type is inferred from the units, and
    /// empty units stand for none.
    pub fn from_entry(internal_name: String, display_label: String, units: String, description: String) -> (r: VariableDef)
        ensures
            r.internal_name@ == internal_name@,
            r.display_label@ == display_label@,
            r.description@ == description@,
            r.data_type == inferred_type(units@),
            units@.len() == 0 ==> r.units is None,
            units@.len() > 0 ==> (r.units matches Some(u) && u@ == units@),
    {
        let data_type = DataType::infer_from_units(units.as_str());
        let units = if units.as_str().is_empty() {
            None
        } else {
            Some(units)
        };
        VariableDef { internal_name, display_label, units, description, data_type }
    }
}

/// The first entry of `defs` named `name`.
pub open spec fn find_def(defs: Seq<DefView>, name: Seq<char>) -> Option<DefView>
    decreases defs.len(),
{
    if defs.len() == 0 {
        None
    } else if defs[0].internal_name == name {
        Some(defs[0])
    } else {
        find_def(defs.drop_first(), name)
    }
}

/// The known variables: a read-only table built once and shared by every parse.
pub struct VariableDictionary {
    pub defs: Vec<VariableDef>,
}

impl View for VariableDictionary {
    type V = Seq<DefView>;

    open spec fn view(&self) -> Seq<DefView> {
        self.defs@.map_values(|d: VariableDef| d@)
    }
}

impl VariableDictionary {
    pub fn new(defs: Vec<VariableDef>) -> (r: VariableDictionary)
        ensures
            r.defs@ == defs@,
    {
        VariableDictionary { defs }
    }

    pub fn len(&self) -> (r: usize)
        ensures
            r == self@.len(),
    {
        self.defs.len()
    }

    /// The first entry named `name`.
    pub fn lookup(&self, name: &String) -> (r: Option<&VariableDef>)
        ensures
            match find_def(self@, name@) {
                Some(d) => r matches Some(x) && x@ == d,
                None => r is None,
            },
    {
        let mut i: usize = 0;
        assert(self@.skip(0) =~= self@);
        while i < self.defs.len()
            invariant
                0 <= i <= self.defs.len(),
                find_def(self@, name@) == find_def(self@.skip(i as int), name@),
            decreases self.defs.len() - i,
        {
            assert(self@.skip(i as int)[0] == self.defs[i as int]@);
            if self.defs[i].internal_name == *name {
                return Some(&self.defs[i]);
            }
            assert(self@.skip(i as int).drop_first() =~= self@.skip(i + 1));
            i += 1;
        }
        None
    }

    /// Whether the dictionary knows a variable of this name.
    pub fn is_known_variable(&self, name: &String) -> (r: bool)
        ensures
            r == find_def(self@, name@) is Some,
    {
        self.lookup(name).is_some()
    }
}

} // verus!
