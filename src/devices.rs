use vstd::prelude::*;

use crate::errors::{ErrorView, ParseError};
use crate::parsing::HeaderMap;
use crate::text::{contains_str, contains_text};

verus! {

/// What the header of a file says of the instrument that wrote it.
#[derive(Debug, Clone)]
pub struct LiCorMetadata {
    pub device_serial: String,
    pub console_version: String,
    pub head_serial: Option<String>,
    pub head_version: Option<String>,
    pub chamber_type: Option<String>,
    pub chamber_serial: Option<String>,
    pub fluorometer_serial: Option<String>,
    pub calibration_date: Option<String>,
}

/// `LiCorMetadata` as mathematical values.
pub struct MetadataView {
    pub device_serial: Seq<char>,
    pub console_version: Seq<char>,
    pub head_serial: Option<Seq<char>>,
    pub head_version: Option<Seq<char>>,
    pub chamber_type: Option<Seq<char>>,
    pub chamber_serial: Option<Seq<char>>,
    pub fluorometer_serial: Option<Seq<char>>,
    pub calibration_date: Option<Seq<char>>,
}

pub open spec fn opt_text(o: Option<String>) -> Option<Seq<char>> {
    match o {
        Some(s) => Some(s@),
        None => None,
    }
}

impl View for LiCorMetadata {
    type V = MetadataView;

    open spec fn view(&self) -> MetadataView {
        MetadataView {
            device_serial: self.device_serial@,
            console_version: self.console_version@,
            head_serial: opt_text(self.head_serial),
            head_version: opt_text(self.head_version),
            chamber_type: opt_text(self.chamber_type),
            chamber_serial: opt_text(self.chamber_serial),
            fluorometer_serial: opt_text(self.fluorometer_serial),
            calibration_date: opt_text(self.calibration_date),
        }
    }
}

/// The value of `k` in `h`, if `h` holds it.
pub open spec fn lookup(h: Map<Seq<char>, Seq<char>>, k: Seq<char>) -> Option<Seq<char>> {
    if h.contains_key(k) {
        Some(h[k])
    } else {
        None
    }
}

pub open spec fn missing_header(field: Seq<char>) -> ErrorView {
    ErrorView::MissingRequiredHeader { field }
}

/// The outcome of checking a header of the LI-6800.
pub open spec fn validate_6800(h: Map<Seq<char>, Seq<char>>) -> Result<(), ErrorView> {
    if !h.contains_key("Console s/n"@) {
        Err(missing_header("Console s/n"@))
    } else if !h.contains_key("Console ver"@) {
        Err(missing_header("Console ver"@))
    } else if !h.contains_key("Head s/n"@) {
        Err(missing_header("Head s/n"@))
    } else if !contains_text(h["Console ver"@], "Bluestem"@) {
        Err(ErrorView::InvalidFileFormat { device: "LI-6800"@ })
    } else {
        Ok(())
    }
}

/// The metadata that a header of the LI-6800 gives.
pub open spec fn metadata_6800(h: Map<Seq<char>, Seq<char>>) -> Result<MetadataView, ErrorView> {
    if !h.contains_key("Console s/n"@) {
        Err(missing_header("Console s/n"@))
    } else if !h.contains_key("Console ver"@) {
        Err(missing_header("Console ver"@))
    } else {
        Ok(
            MetadataView {
                device_serial: h["Console s/n"@],
                console_version: h["Console ver"@],
                head_serial: lookup(h, "Head s/n"@),
                head_version: lookup(h, "Head ver"@),
                chamber_type: lookup(h, "Chamber type"@),
                chamber_serial: lookup(h, "Chamber s/n"@),
                fluorometer_serial: lookup(h, "Fluorometer"@),
                calibration_date: lookup(h, "Factory cal date"@),
            },
        )
    }
}

pub open spec fn unsupported_6400() -> ErrorView {
    ErrorView::InvalidFileFormat { device: "LI-6400 support not yet implemented"@ }
}

/// A header without `Console s/n` fails the LI-6800's check and its metadata, naming that field.
pub proof fn law_missing_console_serial(h: Map<Seq<char>, Seq<char>>)
    requires
        !h.contains_key("Console s/n"@),
    ensures
        validate_6800(h) == Err::<(), ErrorView>(missing_header("Console s/n"@)),
        metadata_6800(h) == Err::<MetadataView, ErrorView>(missing_header("Console s/n"@)),
{
}

fn get_owned(header: &HeaderMap, key: &str) -> (r: Option<String>)
    ensures
        opt_text(r) == lookup(header@, key@),
{
    let k = String::from_str(key);
    match header.get(&k) {
        Some(v) => Some(v.clone()),
        None => None,
    }
}

/// The LI-6800 portable photosynthesis system.
pub struct Device6800;

impl Device6800 {
    /// Checks that the header names the console, its version and the head, and that the
    /// console runs the Bluestem firmware.
    pub fn validate_header(header: &HeaderMap) -> (r: Result<(), ParseError>)
        ensures
            match r {
                Ok(()) => validate_6800(header@) is Ok,
                Err(e) => validate_6800(header@) == Err::<(), ErrorView>(e@),
            },
    {
        let required = ["Console s/n", "Console ver", "Head s/n"];
        let mut i: usize = 0;
        while i < 3
            invariant
                0 <= i <= 3,
                required@ == seq!["Console s/n", "Console ver", "Head s/n"],
                forall|j: int| 0 <= j < i ==> header@.contains_key(#[trigger] required@[j]@),
            decreases 3 - i,
        {
            let field = String::from_str(required[i]);
            if !header.contains_key(&field) {
                return Err(ParseError::MissingRequiredHeader { field });
            }
            i += 1;
        }
        assert(header@.contains_key(required@[0]@));
        assert(header@.contains_key(required@[1]@));
        assert(header@.contains_key(required@[2]@));
        let ver = String::from_str("Console ver");
        match header.get(&ver) {
            Some(version) => {
                if !contains_str(version.as_str(), "Bluestem") {
                    return Err(ParseError::InvalidFileFormat { device: String::from_str("LI-6800") });
                }
            },
            None => {},
        }
        Ok(())
    }

    /// The device metadata of the header; the console's serial number and version are required.
    pub fn parse_metadata(header: &HeaderMap) -> (r: Result<LiCorMetadata, ParseError>)
        ensures
            match r {
                Ok(m) => metadata_6800(header@) == Ok::<MetadataView, ErrorView>(m@),
                Err(e) => metadata_6800(header@) == Err::<MetadataView, ErrorView>(e@),
            },
    {
        let device_serial = match get_owned(header, "Console s/n") {
            Some(s) => s,
            None => {
                return Err(ParseError::MissingRequiredHeader { field: String::from_str("Console s/n") });
            },
        };
        let console_version = match get_owned(header, "Console ver") {
            Some(s) => s,
            None => {
                return Err(ParseError::MissingRequiredHeader { field: String::from_str("Console ver") });
            },
        };
        Ok(
            LiCorMetadata {
                device_serial,
                console_version,
                head_serial: get_owned(header, "Head s/n"),
                head_version: get_owned(header, "Head ver"),
                chamber_type: get_owned(header, "Chamber type"),
                chamber_serial: get_owned(header, "Chamber s/n"),
                fluorometer_serial: get_owned(header, "Fluorometer"),
                calibration_date: get_owned(header, "Factory cal date"),
            },
        )
    }
}

/// The LI-6400 portable photosynthesis system, whose files are not read yet.
pub struct Device6400;

impl Device6400 {
    /// Always fails: headers of this instrument are not supported.
    pub fn validate_header(header: &HeaderMap) -> (r: Result<(), ParseError>)
        ensures
            r matches Err(e) && e@ == unsupported_6400(),
    {
        Err(ParseError::InvalidFileFormat { device: String::from_str("LI-6400 support not yet implemented") })
    }

    /// Always fails: headers of this instrument are not supported.
    pub fn parse_metadata(header: &HeaderMap) -> (r: Result<LiCorMetadata, ParseError>)
        ensures
            r matches Err(e) && e@ == unsupported_6400(),
    {
        Err(ParseError::InvalidFileFormat { device: String::from_str("LI-6400 support not yet implemented") })
    }
}

/// The instrument whose header rules a file must meet.
#[derive(Debug, Clone, Copy, PartialEq, Eq, Structural)]
pub enum DeviceKind {
    Li6800,
    Li6400,
}

impl DeviceKind {
    pub open spec fn validate_spec(self, h: Map<Seq<char>, Seq<char>>) -> Result<(), ErrorView> {
        match self {
            DeviceKind::Li6800 => validate_6800(h),
            DeviceKind::Li6400 => Err(unsupported_6400()),
        }
    }

    pub open spec fn metadata_spec(self, h: Map<Seq<char>, Seq<char>>) -> Result<
        MetadataView,
        ErrorView,
    > {
        match self {
            DeviceKind::Li6800 => metadata_6800(h),
            DeviceKind::Li6400 => Err(unsupported_6400()),
        }
    }

    /// Checks the header against this instrument's rules.
    pub fn validate_header(self, header: &HeaderMap) -> (r: Result<(), ParseError>)
        ensures
            match r {
                Ok(()) => self.validate_spec(header@) is Ok,
                Err(e) => self.validate_spec(header@) == Err::<(), ErrorView>(e@),
            },
    {
        match self {
            DeviceKind::Li6800 => Device6800::validate_header(header),
            DeviceKind::Li6400 => Device6400::validate_header(header),
        }
    }

    /// The device metadata of the header.
    pub fn parse_metadata(self, header: &HeaderMap) -> (r: Result<LiCorMetadata, ParseError>)
        ensures
            match r {
                Ok(m) => self.metadata_spec(header@) == Ok::<MetadataView, ErrorView>(m@),
                Err(e) => self.metadata_spec(header@) == Err::<MetadataView, ErrorView>(e@),
            },
    {
        match self {
            DeviceKind::Li6800 => Device6800::parse_metadata(header),
            DeviceKind::Li6400 => Device6400::parse_metadata(header),
        }
    }
}

} // verus!
