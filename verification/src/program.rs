//! Types used for the program endpoint.

use vstd::prelude::*;

use crate::error::AppError;
use crate::target::{TargetLabel, TargetMap};

verus! {

pub type Programs = Vec<Program>;

/// Provides program specific metadata from VTN to VEN.
#[derive(Clone, Debug, PartialEq)]
pub struct Program {
    /// VTN provisioned on object creation.
    ///
    /// URL safe VTN assigned object ID.
    pub id: ProgramId,
    /// VTN provisioned on object creation.
    ///
    /// datetime in ISO 8601 format
    pub created_date_time: DateTime,
    /// VTN provisioned on object modification.
    ///
    /// datetime in ISO 8601 format
    pub modification_date_time: DateTime,
    pub content: NewProgram,
}

/// The caller-supplied payload of a program record.
#[derive(Clone, Debug, PartialEq)]
pub struct NewProgram {
    /// Used as discriminator, e.g. notification.object
    pub object_type: Option<ProgramObjectType>,
    /// Short name to uniquely identify program.
    pub program_name: ProgramName,
    /// Long name of program for human readability.
    pub program_long_name: Option<String>,
    /// Short name of energy retailer providing the program.
    pub retailer_name: Option<String>,
    /// Long name of energy retailer for human readability.
    pub retailer_long_name: Option<String>,
    /// A program defined categorization.
    pub program_type: Option<String>,
    /// Alpha-2 code per ISO 3166-1.
    pub country: Option<String>,
    /// Coding per ISO 3166-2. E.g. state in US.
    pub principal_subdivision: Option<String>,
    /// duration in ISO 8601 format
    ///
    /// Number of hours different from UTC for the standard time
    /// applicable to the program.
    pub time_zone_offset: Option<Duration>,
    pub interval_period: Option<IntervalPeriod>,
    /// A list of programDescriptions
    pub program_descriptions: Option<Vec<ProgramDescription>>,
    /// True if events are fixed once transmitted.
    pub binding_events: Option<bool>,
    /// True if events have been adapted from a grid event.
    pub local_price: Option<bool>,
    /// A list of payloadDescriptors.
    pub payload_descriptors: Option<Vec<PayloadDescriptor>>,
    /// A list of valuesMap objects.
    pub targets: Option<TargetMap>,
}

/// URL safe VTN assigned object ID.
#[derive(Clone, Debug, PartialEq, Hash, Eq)]
pub struct ProgramId(pub String);

impl View for ProgramId {
    type V = Seq<char>;

    open spec fn view(&self) -> Seq<char> {
        self.0@
    }
}

/// Short name to uniquely identify a program.
#[derive(Clone, Debug, PartialEq)]
pub struct ProgramName(String);

impl View for ProgramName {
    type V = Seq<char>;

    closed spec fn view(&self) -> Seq<char> {
        self.0@
    }
}

impl ProgramName {
    /// Wraps a program name as received on the wire.
    pub fn new(name: String) -> (r: Self)
        ensures
            r@ == name@,
    {
        Self(name)
    }

    /// The wrapped name.
    pub fn as_str(&self) -> (r: &str)
        ensures
            r@ == self@,
    {
        self.0.as_str()
    }
}

/// Used as discriminator, e.g. notification.object
#[derive(Clone, Copy, Debug, Default, Eq, PartialEq, Ord, PartialOrd, Hash, Structural)]
pub enum ProgramObjectType {
    #[default]
    Program,
}

/// A human or machine readable program description.
#[derive(Clone, Debug, PartialEq)]
pub struct ProgramDescription {
    pub url: String,
}

/// One payload descriptor attached to a program.
#[derive(Clone, Debug, PartialEq)]
pub enum PayloadDescriptor {
    EventPayloadDescriptor(EventPayloadDescriptor),
    ReportPayloadDescriptor(ReportPayloadDescriptor),
}

/// Describes the payloads of the events of a program.
#[derive(Clone, Debug, PartialEq)]
pub struct EventPayloadDescriptor {
    pub payload_type: String,
    pub units: Option<String>,
    pub currency: Option<String>,
}

/// Describes the payloads of the reports of a program.
#[derive(Clone, Debug, PartialEq)]
pub struct ReportPayloadDescriptor {
    pub payload_type: String,
    pub reading_type: Option<String>,
    pub units: Option<String>,
}

/// A datetime in ISO 8601 format, as carried on the wire.
#[derive(Clone, Debug, PartialEq)]
pub struct DateTime(pub String);

/// A duration in ISO 8601 format, as carried on the wire.
#[derive(Clone, Debug, PartialEq)]
pub struct Duration(pub String);

/// The recurring period attached to a program.
#[derive(Clone, Debug, PartialEq)]
pub struct IntervalPeriod {
    pub start: DateTime,
    pub duration: Option<Duration>,
    pub randomize_start: Option<Duration>,
}

/// Query parameters of the program list operation.
#[derive(Debug)]
pub struct QueryParams {
    pub target_type: Option<TargetLabel>,
    pub target_values: Option<Vec<String>>,
    pub skip: u32,
    pub limit: u8,
}

impl QueryParams {
    /// The structural constraints a validated program query satisfies:
    /// `limit` at most 50 and the target pair either both present or both
    /// absent.
    pub open spec fn spec_valid(&self) -> bool {
        &&& self.limit <= 50
        &&& (self.target_type is Some <==> self.target_values is Some)
    }

    /// Validates the query, before any storage or permission check runs.
    pub fn validate(&self) -> (r: Result<(), AppError>)
        ensures
            r is Ok <==> self.spec_valid(),
            r matches Err(e) ==> e is ValidationFailed,
    {
        if self.limit > 50 {
            return Err(
                AppError::ValidationFailed("limit outside of allowed range 0..=50".to_owned()),
            );
        }
        if self.target_type.is_some() != self.target_values.is_some() {
            return Err(
                AppError::ValidationFailed(
                    "targetType and targetValues query parameter must either both be set or not set at the same time.".to_owned(),
                ),
            );
        }
        Ok(())
    }
}

} // verus!
