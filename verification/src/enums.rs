//! The closed vocabularies of the domain. Each value has a name, which is
//! how it is written down, and is read back from its name without regard
//! to the case of ASCII letters.

use crate::text::{eq_ignore_ascii_case, same_ignoring_ascii_case};
use vstd::prelude::*;

verus! {

/// A text that names no value of a vocabulary.
#[derive(Debug)]
pub struct EnumParseError {
    pub message: String,
    pub enum_type: String,
    pub value: String,
}

/// What a failed reading reports: the vocabulary and the text that names
/// none of its values.
pub open spec fn is_parse_error(e: EnumParseError, enum_type: Seq<char>, value: Seq<char>) -> bool {
    &&& e.message@ == "Could not parse value"@
    &&& e.enum_type@ == enum_type
    &&& e.value@ == value
}

fn parse_error(enum_type: &str, value: &str) -> (e: EnumParseError)
    ensures
        is_parse_error(e, enum_type@, value@),
{
    EnumParseError {
        message: "Could not parse value".to_owned(),
        enum_type: enum_type.to_owned(),
        value: value.to_owned(),
    }
}

/// The state of an asset on the ledger of record.
#[derive(Clone, Copy, Debug, PartialEq, Eq, Hash, Structural)]
pub enum AssetStatus {
    Unsynced,
}

impl AssetStatus {
    /// The name of the value.
    pub open spec fn spec_name(self) -> Seq<char> {
        match self {
            AssetStatus::Unsynced => "Unsynced"@,
        }
    }

    /// The value that a text names: the first, in the order of
    /// declaration, whose name is the text but for the case of ASCII
    /// letters.
    pub open spec fn spec_parse(s: Seq<char>) -> Option<AssetStatus> {
        if same_ignoring_ascii_case(s, "Unsynced"@) {
            Some(AssetStatus::Unsynced)
        } else {
            None
        }
    }

    /// The name of the value.
    pub fn name(&self) -> (r: &'static str)
        ensures
            r@ == self.spec_name(),
    {
        match self {
            AssetStatus::Unsynced => "Unsynced",
        }
    }

    /// The name of the value, as an owned string.
    pub fn to_string(&self) -> (r: String)
        ensures
            r@ == self.spec_name(),
    {
        self.name().to_owned()
    }

    /// Reads a value from its name, whatever the case of its ASCII
    /// letters.
    pub fn parse(s: &str) -> (r: Result<AssetStatus, EnumParseError>)
        ensures
            match r {
                Ok(v) => Self::spec_parse(s@) == Some(v),
                Err(e) => Self::spec_parse(s@) is None && is_parse_error(e, "AssetStatus"@, s@),
            },
    {
        if eq_ignore_ascii_case(s, "Unsynced") {
            return Ok(AssetStatus::Unsynced);
        }
        Err(parse_error("AssetStatus", s))
    }
}

impl std::str::FromStr for AssetStatus {
    type Err = EnumParseError;

    /// Reads a value from its name, as `parse` does.
    fn from_str(s: &str) -> (r: Result<AssetStatus, EnumParseError>)
        ensures
            match r {
                Ok(v) => AssetStatus::spec_parse(s@) == Some(v),
                Err(e) => AssetStatus::spec_parse(s@) is None && is_parse_error(e, "AssetStatus"@, s@),
            },
    {
        AssetStatus::parse(s)
    }
}

/// What a code grants: access to a ticket type, or a discount.
#[derive(Clone, Copy, Debug, PartialEq, Eq, Hash, Structural)]
pub enum CodeTypes {
    Access,
    Discount,
}

impl CodeTypes {
    /// The name of the value.
    pub open spec fn spec_name(self) -> Seq<char> {
        match self {
            CodeTypes::Access => "Access"@,
            CodeTypes::Discount => "Discount"@,
        }
    }

    /// The value that a text names: the first, in the order of
    /// declaration, whose name is the text but for the case of ASCII
    /// letters.
    pub open spec fn spec_parse(s: Seq<char>) -> Option<CodeTypes> {
        if same_ignoring_ascii_case(s, "Access"@) {
            Some(CodeTypes::Access)
        } else if same_ignoring_ascii_case(s, "Discount"@) {
            Some(CodeTypes::Discount)
        } else {
            None
        }
    }

    /// The name of the value.
    pub fn name(&self) -> (r: &'static str)
        ensures
            r@ == self.spec_name(),
    {
        match self {
            CodeTypes::Access => "Access",
            CodeTypes::Discount => "Discount",
        }
    }

    /// The name of the value, as an owned string.
    pub fn to_string(&self) -> (r: String)
        ensures
            r@ == self.spec_name(),
    {
        self.name().to_owned()
    }

    /// Reads a value from its name, whatever the case of its ASCII
    /// letters.
    pub fn parse(s: &str) -> (r: Result<CodeTypes, EnumParseError>)
        ensures
            match r {
                Ok(v) => Self::spec_parse(s@) == Some(v),
                Err(e) => Self::spec_parse(s@) is None && is_parse_error(e, "CodeTypes"@, s@),
            },
    {
        if eq_ignore_ascii_case(s, "Access") {
            return Ok(CodeTypes::Access);
        }
        if eq_ignore_ascii_case(s, "Discount") {
            return Ok(CodeTypes::Discount);
        }
        Err(parse_error("CodeTypes", s))
    }
}

impl std::str::FromStr for CodeTypes {
    type Err = EnumParseError;

    /// Reads a value from its name, as `parse` does.
    fn from_str(s: &str) -> (r: Result<CodeTypes, EnumParseError>)
        ensures
            match r {
                Ok(v) => CodeTypes::spec_parse(s@) == Some(v),
                Err(e) => CodeTypes::spec_parse(s@) is None && is_parse_error(e, "CodeTypes"@, s@),
            },
    {
        CodeTypes::parse(s)
    }
}

/// The channel that a communication goes out on.
#[derive(Clone, Copy, Debug, PartialEq, Eq, Hash, Structural)]
pub enum CommunicationChannelType {
    Email,
    Sms,
    Push,
}

impl CommunicationChannelType {
    /// The name of the value.
    pub open spec fn spec_name(self) -> Seq<char> {
        match self {
            CommunicationChannelType::Email => "Email"@,
            CommunicationChannelType::Sms => "Sms"@,
            CommunicationChannelType::Push => "Push"@,
        }
    }

    /// The value that a text names: the first, in the order of
    /// declaration, whose name is the text but for the case of ASCII
    /// letters.
    pub open spec fn spec_parse(s: Seq<char>) -> Option<CommunicationChannelType> {
        if same_ignoring_ascii_case(s, "Email"@) {
            Some(CommunicationChannelType::Email)
        } else if same_ignoring_ascii_case(s, "Sms"@) {
            Some(CommunicationChannelType::Sms)
        } else if same_ignoring_ascii_case(s, "Push"@) {
            Some(CommunicationChannelType::Push)
        } else {
            None
        }
    }

    /// The name of the value.
    pub fn name(&self) -> (r: &'static str)
        ensures
            r@ == self.spec_name(),
    {
        match self {
            CommunicationChannelType::Email => "Email",
            CommunicationChannelType::Sms => "Sms",
            CommunicationChannelType::Push => "Push",
        }
    }

    /// The name of the value, as an owned string.
    pub fn to_string(&self) -> (r: String)
        ensures
            r@ == self.spec_name(),
    {
        self.name().to_owned()
    }

    /// Reads a value from its name, whatever the case of its ASCII
    /// letters.
    pub fn parse(s: &str) -> (r: Result<CommunicationChannelType, EnumParseError>)
        ensures
            match r {
                Ok(v) => Self::spec_parse(s@) == Some(v),
                Err(e) => Self::spec_parse(s@) is None && is_parse_error(e, "CommunicationChannelType"@, s@),
            },
    {
        if eq_ignore_ascii_case(s, "Email") {
            return Ok(CommunicationChannelType::Email);
        }
        if eq_ignore_ascii_case(s, "Sms") {
            return Ok(CommunicationChannelType::Sms);
        }
        if eq_ignore_ascii_case(s, "Push") {
            return Ok(CommunicationChannelType::Push);
        }
        Err(parse_error("CommunicationChannelType", s))
    }
}

impl std::str::FromStr for CommunicationChannelType {
    type Err = EnumParseError;

    /// Reads a value from its name, as `parse` does.
    fn from_str(s: &str) -> (r: Result<CommunicationChannelType, EnumParseError>)
        ensures
            match r {
                Ok(v) => CommunicationChannelType::spec_parse(s@) == Some(v),
                Err(e) => CommunicationChannelType::spec_parse(s@) is None && is_parse_error(e, "CommunicationChannelType"@, s@),
            },
    {
        CommunicationChannelType::parse(s)
    }
}

/// A fact that the domain reports for others to act on.
#[derive(Clone, Copy, Debug, PartialEq, Eq, Hash, Structural)]
pub enum DomainEventTypes {
    OrderBehalfOfUserChanged,
    OrderCreated,
    OrderUpdated,
    OrderCompleted,
    PaymentCreated,
    PaymentCompleted,
    PaymentMethodCreated,
    PaymentMethodUpdated,
    UserRegistration,
    LostPassword,
    PurchaseCompleted,
}

impl DomainEventTypes {
    /// The name of the value.
    pub open spec fn spec_name(self) -> Seq<char> {
        match self {
            DomainEventTypes::OrderBehalfOfUserChanged => "OrderBehalfOfUserChanged"@,
            DomainEventTypes::OrderCreated => "OrderCreated"@,
            DomainEventTypes::OrderUpdated => "OrderUpdated"@,
            DomainEventTypes::OrderCompleted => "OrderCompleted"@,
            DomainEventTypes::PaymentCreated => "PaymentCreated"@,
            DomainEventTypes::PaymentCompleted => "PaymentCompleted"@,
            DomainEventTypes::PaymentMethodCreated => "PaymentMethodCreated"@,
            DomainEventTypes::PaymentMethodUpdated => "PaymentMethodUpdated"@,
            DomainEventTypes::UserRegistration => "UserRegistration"@,
            DomainEventTypes::LostPassword => "LostPassword"@,
            DomainEventTypes::PurchaseCompleted => "PurchaseCompleted"@,
        }
    }

    /// The value that a text names: the first, in the order of
    /// declaration, whose name is the text but for the case of ASCII
    /// letters.
    pub open spec fn spec_parse(s: Seq<char>) -> Option<DomainEventTypes> {
        if same_ignoring_ascii_case(s, "OrderBehalfOfUserChanged"@) {
            Some(DomainEventTypes::OrderBehalfOfUserChanged)
        } else if same_ignoring_ascii_case(s, "OrderCreated"@) {
            Some(DomainEventTypes::OrderCreated)
        } else if same_ignoring_ascii_case(s, "OrderUpdated"@) {
            Some(DomainEventTypes::OrderUpdated)
        } else if same_ignoring_ascii_case(s, "OrderCompleted"@) {
            Some(DomainEventTypes::OrderCompleted)
        } else if same_ignoring_ascii_case(s, "PaymentCreated"@) {
            Some(DomainEventTypes::PaymentCreated)
        } else if same_ignoring_ascii_case(s, "PaymentCompleted"@) {
            Some(DomainEventTypes::PaymentCompleted)
        } else if same_ignoring_ascii_case(s, "PaymentMethodCreated"@) {
            Some(DomainEventTypes::PaymentMethodCreated)
        } else if same_ignoring_ascii_case(s, "PaymentMethodUpdated"@) {
            Some(DomainEventTypes::PaymentMethodUpdated)
        } else if same_ignoring_ascii_case(s, "UserRegistration"@) {
            Some(DomainEventTypes::UserRegistration)
        } else if same_ignoring_ascii_case(s, "LostPassword"@) {
            Some(DomainEventTypes::LostPassword)
        } else if same_ignoring_ascii_case(s, "PurchaseCompleted"@) {
            Some(DomainEventTypes::PurchaseCompleted)
        } else {
            None
        }
    }

    /// The name of the value.
    pub fn name(&self) -> (r: &'static str)
        ensures
            r@ == self.spec_name(),
    {
        match self {
            DomainEventTypes::OrderBehalfOfUserChanged => "OrderBehalfOfUserChanged",
            DomainEventTypes::OrderCreated => "OrderCreated",
            DomainEventTypes::OrderUpdated => "OrderUpdated",
            DomainEventTypes::OrderCompleted => "OrderCompleted",
            DomainEventTypes::PaymentCreated => "PaymentCreated",
            DomainEventTypes::PaymentCompleted => "PaymentCompleted",
            DomainEventTypes::PaymentMethodCreated => "PaymentMethodCreated",
            DomainEventTypes::PaymentMethodUpdated => "PaymentMethodUpdated",
            DomainEventTypes::UserRegistration => "UserRegistration",
            DomainEventTypes::LostPassword => "LostPassword",
            DomainEventTypes::PurchaseCompleted => "PurchaseCompleted",
        }
    }

    /// The name of the value, as an owned string.
    pub fn to_string(&self) -> (r: String)
        ensures
            r@ == self.spec_name(),
    {
        self.name().to_owned()
    }

    /// Reads a value from its name, whatever the case of its ASCII
    /// letters.
    pub fn parse(s: &str) -> (r: Result<DomainEventTypes, EnumParseError>)
        ensures
            match r {
                Ok(v) => Self::spec_parse(s@) == Some(v),
                Err(e) => Self::spec_parse(s@) is None && is_parse_error(e, "DomainEventTypes"@, s@),
            },
    {
        if eq_ignore_ascii_case(s, "OrderBehalfOfUserChanged") {
            return Ok(DomainEventTypes::OrderBehalfOfUserChanged);
        }
        if eq_ignore_ascii_case(s, "OrderCreated") {
            return Ok(DomainEventTypes::OrderCreated);
        }
        if eq_ignore_ascii_case(s, "OrderUpdated") {
            return Ok(DomainEventTypes::OrderUpdated);
        }
        if eq_ignore_ascii_case(s, "OrderCompleted") {
            return Ok(DomainEventTypes::OrderCompleted);
        }
        if eq_ignore_ascii_case(s, "PaymentCreated") {
            return Ok(DomainEventTypes::PaymentCreated);
        }
        if eq_ignore_ascii_case(s, "PaymentCompleted") {
            return Ok(DomainEventTypes::PaymentCompleted);
        }
        if eq_ignore_ascii_case(s, "PaymentMethodCreated") {
            return Ok(DomainEventTypes::PaymentMethodCreated);
        }
        if eq_ignore_ascii_case(s, "PaymentMethodUpdated") {
            return Ok(DomainEventTypes::PaymentMethodUpdated);
        }
        if eq_ignore_ascii_case(s, "UserRegistration") {
            return Ok(DomainEventTypes::UserRegistration);
        }
        if eq_ignore_ascii_case(s, "LostPassword") {
            return Ok(DomainEventTypes::LostPassword);
        }
        if eq_ignore_ascii_case(s, "PurchaseCompleted") {
            return Ok(DomainEventTypes::PurchaseCompleted);
        }
        Err(parse_error("DomainEventTypes", s))
    }
}

impl std::str::FromStr for DomainEventTypes {
    type Err = EnumParseError;

    /// Reads a value from its name, as `parse` does.
    fn from_str(s: &str) -> (r: Result<DomainEventTypes, EnumParseError>)
        ensures
            match r {
                Ok(v) => DomainEventTypes::spec_parse(s@) == Some(v),
                Err(e) => DomainEventTypes::spec_parse(s@) is None && is_parse_error(e, "DomainEventTypes"@, s@),
            },
    {
        DomainEventTypes::parse(s)
    }
}

/// What a domain action asks for.
#[derive(Clone, Copy, Debug, PartialEq, Eq, Hash, Structural)]
pub enum DomainActionTypes {
    Communication,
}

impl DomainActionTypes {
    /// The name of the value.
    pub open spec fn spec_name(self) -> Seq<char> {
        match self {
            DomainActionTypes::Communication => "Communication"@,
        }
    }

    /// The value that a text names: the first, in the order of
    /// declaration, whose name is the text but for the case of ASCII
    /// letters.
    pub open spec fn spec_parse(s: Seq<char>) -> Option<DomainActionTypes> {
        if same_ignoring_ascii_case(s, "Communication"@) {
            Some(DomainActionTypes::Communication)
        } else {
            None
        }
    }

    /// The name of the value.
    pub fn name(&self) -> (r: &'static str)
        ensures
            r@ == self.spec_name(),
    {
        match self {
            DomainActionTypes::Communication => "Communication",
        }
    }

    /// The name of the value, as an owned string.
    pub fn to_string(&self) -> (r: String)
        ensures
            r@ == self.spec_name(),
    {
        self.name().to_owned()
    }

    /// Reads a value from its name, whatever the case of its ASCII
    /// letters.
    pub fn parse(s: &str) -> (r: Result<DomainActionTypes, EnumParseError>)
        ensures
            match r {
                Ok(v) => Self::spec_parse(s@) == Some(v),
                Err(e) => Self::spec_parse(s@) is None && is_parse_error(e, "DomainActionTypes"@, s@),
            },
    {
        if eq_ignore_ascii_case(s, "Communication") {
            return Ok(DomainActionTypes::Communication);
        }
        Err(parse_error("DomainActionTypes", s))
    }
}

impl std::str::FromStr for DomainActionTypes {
    type Err = EnumParseError;

    /// Reads a value from its name, as `parse` does.
    fn from_str(s: &str) -> (r: Result<DomainActionTypes, EnumParseError>)
        ensures
            match r {
                Ok(v) => DomainActionTypes::spec_parse(s@) == Some(v),
                Err(e) => DomainActionTypes::spec_parse(s@) is None && is_parse_error(e, "DomainActionTypes"@, s@),
            },
    {
        DomainActionTypes::parse(s)
    }
}

/// How a domain action stands.
#[derive(Clone, Copy, Debug, PartialEq, Eq, Hash, Structural)]
pub enum DomainActionStatus {
    Pending,
    RetriesExceeded,
    Errored,
    Success,
    Cancelled,
}

impl DomainActionStatus {
    /// The name of the value.
    pub open spec fn spec_name(self) -> Seq<char> {
        match self {
            DomainActionStatus::Pending => "Pending"@,
            DomainActionStatus::RetriesExceeded => "RetriesExceeded"@,
            DomainActionStatus::Errored => "Errored"@,
            DomainActionStatus::Success => "Success"@,
            DomainActionStatus::Cancelled => "Cancelled"@,
        }
    }

    /// The value that a text names: the first, in the order of
    /// declaration, whose name is the text but for the case of ASCII
    /// letters.
    pub open spec fn spec_parse(s: Seq<char>) -> Option<DomainActionStatus> {
        if same_ignoring_ascii_case(s, "Pending"@) {
            Some(DomainActionStatus::Pending)
        } else if same_ignoring_ascii_case(s, "RetriesExceeded"@) {
            Some(DomainActionStatus::RetriesExceeded)
        } else if same_ignoring_ascii_case(s, "Errored"@) {
            Some(DomainActionStatus::Errored)
        } else if same_ignoring_ascii_case(s, "Success"@) {
            Some(DomainActionStatus::Success)
        } else if same_ignoring_ascii_case(s, "Cancelled"@) {
            Some(DomainActionStatus::Cancelled)
        } else {
            None
        }
    }

    /// The name of the value.
    pub fn name(&self) -> (r: &'static str)
        ensures
            r@ == self.spec_name(),
    {
        match self {
            DomainActionStatus::Pending => "Pending",
            DomainActionStatus::RetriesExceeded => "RetriesExceeded",
            DomainActionStatus::Errored => "Errored",
            DomainActionStatus::Success => "Success",
            DomainActionStatus::Cancelled => "Cancelled",
        }
    }

    /// The name of the value, as an owned string.
    pub fn to_string(&self) -> (r: String)
        ensures
            r@ == self.spec_name(),
    {
        self.name().to_owned()
    }

    /// Reads a value from its name, whatever the case of its ASCII
    /// letters.
    pub fn parse(s: &str) -> (r: Result<DomainActionStatus, EnumParseError>)
        ensures
            match r {
                Ok(v) => Self::spec_parse(s@) == Some(v),
                Err(e) => Self::spec_parse(s@) is None && is_parse_error(e, "DomainActionStatus"@, s@),
            },
    {
        if eq_ignore_ascii_case(s, "Pending") {
            return Ok(DomainActionStatus::Pending);
        }
        if eq_ignore_ascii_case(s, "RetriesExceeded") {
            return Ok(DomainActionStatus::RetriesExceeded);
        }
        if eq_ignore_ascii_case(s, "Errored") {
            return Ok(DomainActionStatus::Errored);
        }
        if eq_ignore_ascii_case(s, "Success") {
            return Ok(DomainActionStatus::Success);
        }
        if eq_ignore_ascii_case(s, "Cancelled") {
            return Ok(DomainActionStatus::Cancelled);
        }
        Err(parse_error("DomainActionStatus", s))
    }
}

impl std::str::FromStr for DomainActionStatus {
    type Err = EnumParseError;

    /// Reads a value from its name, as `parse` does.
    fn from_str(s: &str) -> (r: Result<DomainActionStatus, EnumParseError>)
        ensures
            match r {
                Ok(v) => DomainActionStatus::spec_parse(s@) == Some(v),
                Err(e) => DomainActionStatus::spec_parse(s@) is None && is_parse_error(e, "DomainActionStatus"@, s@),
            },
    {
        DomainActionStatus::parse(s)
    }
}

/// The publication state of an event.
#[derive(Clone, Copy, Debug, PartialEq, Eq, Hash, Structural)]
pub enum EventStatus {
    Draft,
    Closed,
    Published,
    Offline,
}

impl EventStatus {
    /// The name of the value.
    pub open spec fn spec_name(self) -> Seq<char> {
        match self {
            EventStatus::Draft => "Draft"@,
            EventStatus::Closed => "Closed"@,
            EventStatus::Published => "Published"@,
            EventStatus::Offline => "Offline"@,
        }
    }

    /// The value that a text names: the first, in the order of
    /// declaration, whose name is the text but for the case of ASCII
    /// letters.
    pub open spec fn spec_parse(s: Seq<char>) -> Option<EventStatus> {
        if same_ignoring_ascii_case(s, "Draft"@) {
            Some(EventStatus::Draft)
        } else if same_ignoring_ascii_case(s, "Closed"@) {
            Some(EventStatus::Closed)
        } else if same_ignoring_ascii_case(s, "Published"@) {
            Some(EventStatus::Published)
        } else if same_ignoring_ascii_case(s, "Offline"@) {
            Some(EventStatus::Offline)
        } else {
            None
        }
    }

    /// The name of the value.
    pub fn name(&self) -> (r: &'static str)
        ensures
            r@ == self.spec_name(),
    {
        match self {
            EventStatus::Draft => "Draft",
            EventStatus::Closed => "Closed",
            EventStatus::Published => "Published",
            EventStatus::Offline => "Offline",
        }
    }

    /// The name of the value, as an owned string.
    pub fn to_string(&self) -> (r: String)
        ensures
            r@ == self.spec_name(),
    {
        self.name().to_owned()
    }

    /// Reads a value from its name, whatever the case of its ASCII
    /// letters.
    pub fn parse(s: &str) -> (r: Result<EventStatus, EnumParseError>)
        ensures
            match r {
                Ok(v) => Self::spec_parse(s@) == Some(v),
                Err(e) => Self::spec_parse(s@) is None && is_parse_error(e, "EventStatus"@, s@),
            },
    {
        if eq_ignore_ascii_case(s, "Draft") {
            return Ok(EventStatus::Draft);
        }
        if eq_ignore_ascii_case(s, "Closed") {
            return Ok(EventStatus::Closed);
        }
        if eq_ignore_ascii_case(s, "Published") {
            return Ok(EventStatus::Published);
        }
        if eq_ignore_ascii_case(s, "Offline") {
            return Ok(EventStatus::Offline);
        }
        Err(parse_error("EventStatus", s))
    }
}

impl std::str::FromStr for EventStatus {
    type Err = EnumParseError;

    /// Reads a value from its name, as `parse` does.
    fn from_str(s: &str) -> (r: Result<EventStatus, EnumParseError>)
        ensures
            match r {
                Ok(v) => EventStatus::spec_parse(s@) == Some(v),
                Err(e) => EventStatus::spec_parse(s@) is None && is_parse_error(e, "EventStatus"@, s@),
            },
    {
        EventStatus::parse(s)
    }
}

/// The field that an event search sorts by.
#[derive(Clone, Copy, Debug, PartialEq, Eq, Hash, Structural)]
pub enum EventSearchSortField {
    Name,
    EventStart,
}

impl EventSearchSortField {
    /// The name of the value.
    pub open spec fn spec_name(self) -> Seq<char> {
        match self {
            EventSearchSortField::Name => "Name"@,
            EventSearchSortField::EventStart => "EventStart"@,
        }
    }

    /// The value that a text names: the first, in the order of
    /// declaration, whose name is the text but for the case of ASCII
    /// letters.
    pub open spec fn spec_parse(s: Seq<char>) -> Option<EventSearchSortField> {
        if same_ignoring_ascii_case(s, "Name"@) {
            Some(EventSearchSortField::Name)
        } else if same_ignoring_ascii_case(s, "EventStart"@) {
            Some(EventSearchSortField::EventStart)
        } else {
            None
        }
    }

    /// The name of the value.
    pub fn name(&self) -> (r: &'static str)
        ensures
            r@ == self.spec_name(),
    {
        match self {
            EventSearchSortField::Name => "Name",
            EventSearchSortField::EventStart => "EventStart",
        }
    }

    /// The name of the value, as an owned string.
    pub fn to_string(&self) -> (r: String)
        ensures
            r@ == self.spec_name(),
    {
        self.name().to_owned()
    }

    /// Reads a value from its name, whatever the case of its ASCII
    /// letters.
    pub fn parse(s: &str) -> (r: Result<EventSearchSortField, EnumParseError>)
        ensures
            match r {
                Ok(v) => Self::spec_parse(s@) == Some(v),
                Err(e) => Self::spec_parse(s@) is None && is_parse_error(e, "EventSearchSortField"@, s@),
            },
    {
        if eq_ignore_ascii_case(s, "Name") {
            return Ok(EventSearchSortField::Name);
        }
        if eq_ignore_ascii_case(s, "EventStart") {
            return Ok(EventSearchSortField::EventStart);
        }
        Err(parse_error("EventSearchSortField", s))
    }
}

impl std::str::FromStr for EventSearchSortField {
    type Err = EnumParseError;

    /// Reads a value from its name, as `parse` does.
    fn from_str(s: &str) -> (r: Result<EventSearchSortField, EnumParseError>)
        ensures
            match r {
                Ok(v) => EventSearchSortField::spec_parse(s@) == Some(v),
                Err(e) => EventSearchSortField::spec_parse(s@) is None && is_parse_error(e, "EventSearchSortField"@, s@),
            },
    {
        EventSearchSortField::parse(s)
    }
}

/// A status that an organizer sets on an event by hand.
#[derive(Clone, Copy, Debug, PartialEq, Eq, Hash, Structural)]
pub enum EventOverrideStatus {
    PurchaseTickets,
    SoldOut,
    OnSaleSoon,
    TicketsAtTheDoor,
    Free,
    Rescheduled,
    Cancelled,
    OffSale,
    Ended,
}

impl EventOverrideStatus {
    /// The name of the value.
    pub open spec fn spec_name(self) -> Seq<char> {
        match self {
            EventOverrideStatus::PurchaseTickets => "PurchaseTickets"@,
            EventOverrideStatus::SoldOut => "SoldOut"@,
            EventOverrideStatus::OnSaleSoon => "OnSaleSoon"@,
            EventOverrideStatus::TicketsAtTheDoor => "TicketsAtTheDoor"@,
            EventOverrideStatus::Free => "Free"@,
            EventOverrideStatus::Rescheduled => "Rescheduled"@,
            EventOverrideStatus::Cancelled => "Cancelled"@,
            EventOverrideStatus::OffSale => "OffSale"@,
            EventOverrideStatus::Ended => "Ended"@,
        }
    }

    /// The value that a text names: the first, in the order of
    /// declaration, whose name is the text but for the case of ASCII
    /// letters.
    pub open spec fn spec_parse(s: Seq<char>) -> Option<EventOverrideStatus> {
        if same_ignoring_ascii_case(s, "PurchaseTickets"@) {
            Some(EventOverrideStatus::PurchaseTickets)
        } else if same_ignoring_ascii_case(s, "SoldOut"@) {
            Some(EventOverrideStatus::SoldOut)
        } else if same_ignoring_ascii_case(s, "OnSaleSoon"@) {
            Some(EventOverrideStatus::OnSaleSoon)
        } else if same_ignoring_ascii_case(s, "TicketsAtTheDoor"@) {
            Some(EventOverrideStatus::TicketsAtTheDoor)
        } else if same_ignoring_ascii_case(s, "Free"@) {
            Some(EventOverrideStatus::Free)
        } else if same_ignoring_ascii_case(s, "Rescheduled"@) {
            Some(EventOverrideStatus::Rescheduled)
        } else if same_ignoring_ascii_case(s, "Cancelled"@) {
            Some(EventOverrideStatus::Cancelled)
        } else if same_ignoring_ascii_case(s, "OffSale"@) {
            Some(EventOverrideStatus::OffSale)
        } else if same_ignoring_ascii_case(s, "Ended"@) {
            Some(EventOverrideStatus::Ended)
        } else {
            None
        }
    }

    /// The name of the value.
    pub fn name(&self) -> (r: &'static str)
        ensures
            r@ == self.spec_name(),
    {
        match self {
            EventOverrideStatus::PurchaseTickets => "PurchaseTickets",
            EventOverrideStatus::SoldOut => "SoldOut",
            EventOverrideStatus::OnSaleSoon => "OnSaleSoon",
            EventOverrideStatus::TicketsAtTheDoor => "TicketsAtTheDoor",
            EventOverrideStatus::Free => "Free",
            EventOverrideStatus::Rescheduled => "Rescheduled",
            EventOverrideStatus::Cancelled => "Cancelled",
            EventOverrideStatus::OffSale => "OffSale",
            EventOverrideStatus::Ended => "Ended",
        }
    }

    /// The name of the value, as an owned string.
    pub fn to_string(&self) -> (r: String)
        ensures
            r@ == self.spec_name(),
    {
        self.name().to_owned()
    }

    /// Reads a value from its name, whatever the case of its ASCII
    /// letters.
    pub fn parse(s: &str) -> (r: Result<EventOverrideStatus, EnumParseError>)
        ensures
            match r {
                Ok(v) => Self::spec_parse(s@) == Some(v),
                Err(e) => Self::spec_parse(s@) is None && is_parse_error(e, "EventOverrideStatus"@, s@),
            },
    {
        if eq_ignore_ascii_case(s, "PurchaseTickets") {
            return Ok(EventOverrideStatus::PurchaseTickets);
        }
        if eq_ignore_ascii_case(s, "SoldOut") {
            return Ok(EventOverrideStatus::SoldOut);
        }
        if eq_ignore_ascii_case(s, "OnSaleSoon") {
            return Ok(EventOverrideStatus::OnSaleSoon);
        }
        if eq_ignore_ascii_case(s, "TicketsAtTheDoor") {
            return Ok(EventOverrideStatus::TicketsAtTheDoor);
        }
        if eq_ignore_ascii_case(s, "Free") {
            return Ok(EventOverrideStatus::Free);
        }
        if eq_ignore_ascii_case(s, "Rescheduled") {
            return Ok(EventOverrideStatus::Rescheduled);
        }
        if eq_ignore_ascii_case(s, "Cancelled") {
            return Ok(EventOverrideStatus::Cancelled);
        }
        if eq_ignore_ascii_case(s, "OffSale") {
            return Ok(EventOverrideStatus::OffSale);
        }
        if eq_ignore_ascii_case(s, "Ended") {
            return Ok(EventOverrideStatus::Ended);
        }
        Err(parse_error("EventOverrideStatus", s))
    }
}

impl std::str::FromStr for EventOverrideStatus {
    type Err = EnumParseError;

    /// Reads a value from its name, as `parse` does.
    fn from_str(s: &str) -> (r: Result<EventOverrideStatus, EnumParseError>)
        ensures
            match r {
                Ok(v) => EventOverrideStatus::spec_parse(s@) == Some(v),
                Err(e) => EventOverrideStatus::spec_parse(s@) is None && is_parse_error(e, "EventOverrideStatus"@, s@),
            },
    {
        EventOverrideStatus::parse(s)
    }
}

/// The field that a list of fans sorts by.
#[derive(Clone, Copy, Debug, PartialEq, Eq, Hash, Structural)]
pub enum FanSortField {
    FirstName,
    LastName,
    Email,
    Phone,
    Orders,
    FirstOrder,
    LastOrder,
    Revenue,
}

impl FanSortField {
    /// The name of the value.
    pub open spec fn spec_name(self) -> Seq<char> {
        match self {
            FanSortField::FirstName => "FirstName"@,
            FanSortField::LastName => "LastName"@,
            FanSortField::Email => "Email"@,
            FanSortField::Phone => "Phone"@,
            FanSortField::Orders => "Orders"@,
            FanSortField::FirstOrder => "FirstOrder"@,
            FanSortField::LastOrder => "LastOrder"@,
            FanSortField::Revenue => "Revenue"@,
        }
    }

    /// The value that a text names: the first, in the order of
    /// declaration, whose name is the text but for the case of ASCII
    /// letters.
    pub open spec fn spec_parse(s: Seq<char>) -> Option<FanSortField> {
        if same_ignoring_ascii_case(s, "FirstName"@) {
            Some(FanSortField::FirstName)
        } else if same_ignoring_ascii_case(s, "LastName"@) {
            Some(FanSortField::LastName)
        } else if same_ignoring_ascii_case(s, "Email"@) {
            Some(FanSortField::Email)
        } else if same_ignoring_ascii_case(s, "Phone"@) {
            Some(FanSortField::Phone)
        } else if same_ignoring_ascii_case(s, "Orders"@) {
            Some(FanSortField::Orders)
        } else if same_ignoring_ascii_case(s, "FirstOrder"@) {
            Some(FanSortField::FirstOrder)
        } else if same_ignoring_ascii_case(s, "LastOrder"@) {
            Some(FanSortField::LastOrder)
        } else if same_ignoring_ascii_case(s, "Revenue"@) {
            Some(FanSortField::Revenue)
        } else {
            None
        }
    }

    /// The name of the value.
    pub fn name(&self) -> (r: &'static str)
        ensures
            r@ == self.spec_name(),
    {
        match self {
            FanSortField::FirstName => "FirstName",
            FanSortField::LastName => "LastName",
            FanSortField::Email => "Email",
            FanSortField::Phone => "Phone",
            FanSortField::Orders => "Orders",
            FanSortField::FirstOrder => "FirstOrder",
            FanSortField::LastOrder => "LastOrder",
            FanSortField::Revenue => "Revenue",
        }
    }

    /// The name of the value, as an owned string.
    pub fn to_string(&self) -> (r: String)
        ensures
            r@ == self.spec_name(),
    {
        self.name().to_owned()
    }

    /// Reads a value from its name, whatever the case of its ASCII
    /// letters.
    pub fn parse(s: &str) -> (r: Result<FanSortField, EnumParseError>)
        ensures
            match r {
                Ok(v) => Self::spec_parse(s@) == Some(v),
                Err(e) => Self::spec_parse(s@) is None && is_parse_error(e, "FanSortField"@, s@),
            },
    {
        if eq_ignore_ascii_case(s, "FirstName") {
            return Ok(FanSortField::FirstName);
        }
        if eq_ignore_ascii_case(s, "LastName") {
            return Ok(FanSortField::LastName);
        }
        if eq_ignore_ascii_case(s, "Email") {
            return Ok(FanSortField::Email);
        }
        if eq_ignore_ascii_case(s, "Phone") {
            return Ok(FanSortField::Phone);
        }
        if eq_ignore_ascii_case(s, "Orders") {
            return Ok(FanSortField::Orders);
        }
        if eq_ignore_ascii_case(s, "FirstOrder") {
            return Ok(FanSortField::FirstOrder);
        }
        if eq_ignore_ascii_case(s, "LastOrder") {
            return Ok(FanSortField::LastOrder);
        }
        if eq_ignore_ascii_case(s, "Revenue") {
            return Ok(FanSortField::Revenue);
        }
        Err(parse_error("FanSortField", s))
    }
}

impl std::str::FromStr for FanSortField {
    type Err = EnumParseError;

    /// Reads a value from its name, as `parse` does.
    fn from_str(s: &str) -> (r: Result<FanSortField, EnumParseError>)
        ensures
            match r {
                Ok(v) => FanSortField::spec_parse(s@) == Some(v),
                Err(e) => FanSortField::spec_parse(s@) is None && is_parse_error(e, "FanSortField"@, s@),
            },
    {
        FanSortField::parse(s)
    }
}

/// The kind of an entry in a user's history.
#[derive(Clone, Copy, Debug, PartialEq, Eq, Hash, Structural)]
pub enum HistoryType {
    Purchase,
}

impl HistoryType {
    /// The name of the value.
    pub open spec fn spec_name(self) -> Seq<char> {
        match self {
            HistoryType::Purchase => "Purchase"@,
        }
    }

    /// The value that a text names: the first, in the order of
    /// declaration, whose name is the text but for the case of ASCII
    /// letters.
    pub open spec fn spec_parse(s: Seq<char>) -> Option<HistoryType> {
        if same_ignoring_ascii_case(s, "Purchase"@) {
            Some(HistoryType::Purchase)
        } else {
            None
        }
    }

    /// The name of the value.
    pub fn name(&self) -> (r: &'static str)
        ensures
            r@ == self.spec_name(),
    {
        match self {
            HistoryType::Purchase => "Purchase",
        }
    }

    /// The name of the value, as an owned string.
    pub fn to_string(&self) -> (r: String)
        ensures
            r@ == self.spec_name(),
    {
        self.name().to_owned()
    }

    /// Reads a value from its name, whatever the case of its ASCII
    /// letters.
    pub fn parse(s: &str) -> (r: Result<HistoryType, EnumParseError>)
        ensures
            match r {
                Ok(v) => Self::spec_parse(s@) == Some(v),
                Err(e) => Self::spec_parse(s@) is None && is_parse_error(e, "HistoryType"@, s@),
            },
    {
        if eq_ignore_ascii_case(s, "Purchase") {
            return Ok(HistoryType::Purchase);
        }
        Err(parse_error("HistoryType", s))
    }
}

impl std::str::FromStr for HistoryType {
    type Err = EnumParseError;

    /// Reads a value from its name, as `parse` does.
    fn from_str(s: &str) -> (r: Result<HistoryType, EnumParseError>)
        ensures
            match r {
                Ok(v) => HistoryType::spec_parse(s@) == Some(v),
                Err(e) => HistoryType::spec_parse(s@) is None && is_parse_error(e, "HistoryType"@, s@),
            },
    {
        HistoryType::parse(s)
    }
}

/// What a hold is for: discounted sales, or comps.
#[derive(Clone, Copy, Debug, PartialEq, Eq, Hash, Structural)]
pub enum HoldTypes {
    Discount,
    Comp,
}

impl HoldTypes {
    /// The name of the value.
    pub open spec fn spec_name(self) -> Seq<char> {
        match self {
            HoldTypes::Discount => "Discount"@,
            HoldTypes::Comp => "Comp"@,
        }
    }

    /// The value that a text names: the first, in the order of
    /// declaration, whose name is the text but for the case of ASCII
    /// letters.
    pub open spec fn spec_parse(s: Seq<char>) -> Option<HoldTypes> {
        if same_ignoring_ascii_case(s, "Discount"@) {
            Some(HoldTypes::Discount)
        } else if same_ignoring_ascii_case(s, "Comp"@) {
            Some(HoldTypes::Comp)
        } else {
            None
        }
    }

    /// The name of the value.
    pub fn name(&self) -> (r: &'static str)
        ensures
            r@ == self.spec_name(),
    {
        match self {
            HoldTypes::Discount => "Discount",
            HoldTypes::Comp => "Comp",
        }
    }

    /// The name of the value, as an owned string.
    pub fn to_string(&self) -> (r: String)
        ensures
            r@ == self.spec_name(),
    {
        self.name().to_owned()
    }

    /// Reads a value from its name, whatever the case of its ASCII
    /// letters.
    pub fn parse(s: &str) -> (r: Result<HoldTypes, EnumParseError>)
        ensures
            match r {
                Ok(v) => Self::spec_parse(s@) == Some(v),
                Err(e) => Self::spec_parse(s@) is None && is_parse_error(e, "HoldTypes"@, s@),
            },
    {
        if eq_ignore_ascii_case(s, "Discount") {
            return Ok(HoldTypes::Discount);
        }
        if eq_ignore_ascii_case(s, "Comp") {
            return Ok(HoldTypes::Comp);
        }
        Err(parse_error("HoldTypes", s))
    }
}

impl std::str::FromStr for HoldTypes {
    type Err = EnumParseError;

    /// Reads a value from its name, as `parse` does.
    fn from_str(s: &str) -> (r: Result<HoldTypes, EnumParseError>)
        ensures
            match r {
                Ok(v) => HoldTypes::spec_parse(s@) == Some(v),
                Err(e) => HoldTypes::spec_parse(s@) is None && is_parse_error(e, "HoldTypes"@, s@),
            },
    {
        HoldTypes::parse(s)
    }
}

/// The lifecycle status of an order.
#[derive(Clone, Copy, Debug, PartialEq, Eq, Hash, Structural)]
pub enum OrderStatus {
    Draft,
    PartiallyPaid,
    Paid,
    Cancelled,
}

impl OrderStatus {
    /// The name of the value.
    pub open spec fn spec_name(self) -> Seq<char> {
        match self {
            OrderStatus::Draft => "Draft"@,
            OrderStatus::PartiallyPaid => "PartiallyPaid"@,
            OrderStatus::Paid => "Paid"@,
            OrderStatus::Cancelled => "Cancelled"@,
        }
    }

    /// The value that a text names: the first, in the order of
    /// declaration, whose name is the text but for the case of ASCII
    /// letters.
    pub open spec fn spec_parse(s: Seq<char>) -> Option<OrderStatus> {
        if same_ignoring_ascii_case(s, "Draft"@) {
            Some(OrderStatus::Draft)
        } else if same_ignoring_ascii_case(s, "PartiallyPaid"@) {
            Some(OrderStatus::PartiallyPaid)
        } else if same_ignoring_ascii_case(s, "Paid"@) {
            Some(OrderStatus::Paid)
        } else if same_ignoring_ascii_case(s, "Cancelled"@) {
            Some(OrderStatus::Cancelled)
        } else {
            None
        }
    }

    /// The name of the value.
    pub fn name(&self) -> (r: &'static str)
        ensures
            r@ == self.spec_name(),
    {
        match self {
            OrderStatus::Draft => "Draft",
            OrderStatus::PartiallyPaid => "PartiallyPaid",
            OrderStatus::Paid => "Paid",
            OrderStatus::Cancelled => "Cancelled",
        }
    }

    /// The name of the value, as an owned string.
    pub fn to_string(&self) -> (r: String)
        ensures
            r@ == self.spec_name(),
    {
        self.name().to_owned()
    }

    /// Reads a value from its name, whatever the case of its ASCII
    /// letters.
    pub fn parse(s: &str) -> (r: Result<OrderStatus, EnumParseError>)
        ensures
            match r {
                Ok(v) => Self::spec_parse(s@) == Some(v),
                Err(e) => Self::spec_parse(s@) is None && is_parse_error(e, "OrderStatus"@, s@),
            },
    {
        if eq_ignore_ascii_case(s, "Draft") {
            return Ok(OrderStatus::Draft);
        }
        if eq_ignore_ascii_case(s, "PartiallyPaid") {
            return Ok(OrderStatus::PartiallyPaid);
        }
        if eq_ignore_ascii_case(s, "Paid") {
            return Ok(OrderStatus::Paid);
        }
        if eq_ignore_ascii_case(s, "Cancelled") {
            return Ok(OrderStatus::Cancelled);
        }
        Err(parse_error("OrderStatus", s))
    }
}

impl std::str::FromStr for OrderStatus {
    type Err = EnumParseError;

    /// Reads a value from its name, as `parse` does.
    fn from_str(s: &str) -> (r: Result<OrderStatus, EnumParseError>)
        ensures
            match r {
                Ok(v) => OrderStatus::spec_parse(s@) == Some(v),
                Err(e) => OrderStatus::spec_parse(s@) is None && is_parse_error(e, "OrderStatus"@, s@),
            },
    {
        OrderStatus::parse(s)
    }
}

/// The kind of a line item.
#[derive(Clone, Copy, Debug, PartialEq, Eq, Hash, Structural)]
pub enum OrderItemTypes {
    Tickets,
    PerUnitFees,
    EventFees,
}

impl OrderItemTypes {
    /// The name of the value.
    pub open spec fn spec_name(self) -> Seq<char> {
        match self {
            OrderItemTypes::Tickets => "Tickets"@,
            OrderItemTypes::PerUnitFees => "PerUnitFees"@,
            OrderItemTypes::EventFees => "EventFees"@,
        }
    }

    /// The value that a text names: the first, in the order of
    /// declaration, whose name is the text but for the case of ASCII
    /// letters.
    pub open spec fn spec_parse(s: Seq<char>) -> Option<OrderItemTypes> {
        if same_ignoring_ascii_case(s, "Tickets"@) {
            Some(OrderItemTypes::Tickets)
        } else if same_ignoring_ascii_case(s, "PerUnitFees"@) {
            Some(OrderItemTypes::PerUnitFees)
        } else if same_ignoring_ascii_case(s, "EventFees"@) {
            Some(OrderItemTypes::EventFees)
        } else {
            None
        }
    }

    /// The name of the value.
    pub fn name(&self) -> (r: &'static str)
        ensures
            r@ == self.spec_name(),
    {
        match self {
            OrderItemTypes::Tickets => "Tickets",
            OrderItemTypes::PerUnitFees => "PerUnitFees",
            OrderItemTypes::EventFees => "EventFees",
        }
    }

    /// The name of the value, as an owned string.
    pub fn to_string(&self) -> (r: String)
        ensures
            r@ == self.spec_name(),
    {
        self.name().to_owned()
    }

    /// Reads a value from its name, whatever the case of its ASCII
    /// letters.
    pub fn parse(s: &str) -> (r: Result<OrderItemTypes, EnumParseError>)
        ensures
            match r {
                Ok(v) => Self::spec_parse(s@) == Some(v),
                Err(e) => Self::spec_parse(s@) is None && is_parse_error(e, "OrderItemTypes"@, s@),
            },
    {
        if eq_ignore_ascii_case(s, "Tickets") {
            return Ok(OrderItemTypes::Tickets);
        }
        if eq_ignore_ascii_case(s, "PerUnitFees") {
            return Ok(OrderItemTypes::PerUnitFees);
        }
        if eq_ignore_ascii_case(s, "EventFees") {
            return Ok(OrderItemTypes::EventFees);
        }
        Err(parse_error("OrderItemTypes", s))
    }
}

impl std::str::FromStr for OrderItemTypes {
    type Err = EnumParseError;

    /// Reads a value from its name, as `parse` does.
    fn from_str(s: &str) -> (r: Result<OrderItemTypes, EnumParseError>)
        ensures
            match r {
                Ok(v) => OrderItemTypes::spec_parse(s@) == Some(v),
                Err(e) => OrderItemTypes::spec_parse(s@) is None && is_parse_error(e, "OrderItemTypes"@, s@),
            },
    {
        OrderItemTypes::parse(s)
    }
}

/// Where an order was made.
#[derive(Clone, Copy, Debug, PartialEq, Eq, Hash, Structural)]
pub enum OrderTypes {
    Cart,
    BackOffice,
}

impl OrderTypes {
    /// The name of the value.
    pub open spec fn spec_name(self) -> Seq<char> {
        match self {
            OrderTypes::Cart => "Cart"@,
            OrderTypes::BackOffice => "BackOffice"@,
        }
    }

    /// The value that a text names: the first, in the order of
    /// declaration, whose name is the text but for the case of ASCII
    /// letters.
    pub open spec fn spec_parse(s: Seq<char>) -> Option<OrderTypes> {
        if same_ignoring_ascii_case(s, "Cart"@) {
            Some(OrderTypes::Cart)
        } else if same_ignoring_ascii_case(s, "BackOffice"@) {
            Some(OrderTypes::BackOffice)
        } else {
            None
        }
    }

    /// The name of the value.
    pub fn name(&self) -> (r: &'static str)
        ensures
            r@ == self.spec_name(),
    {
        match self {
            OrderTypes::Cart => "Cart",
            OrderTypes::BackOffice => "BackOffice",
        }
    }

    /// The name of the value, as an owned string.
    pub fn to_string(&self) -> (r: String)
        ensures
            r@ == self.spec_name(),
    {
        self.name().to_owned()
    }

    /// Reads a value from its name, whatever the case of its ASCII
    /// letters.
    pub fn parse(s: &str) -> (r: Result<OrderTypes, EnumParseError>)
        ensures
            match r {
                Ok(v) => Self::spec_parse(s@) == Some(v),
                Err(e) => Self::spec_parse(s@) is None && is_parse_error(e, "OrderTypes"@, s@),
            },
    {
        if eq_ignore_ascii_case(s, "Cart") {
            return Ok(OrderTypes::Cart);
        }
        if eq_ignore_ascii_case(s, "BackOffice") {
            return Ok(OrderTypes::BackOffice);
        }
        Err(parse_error("OrderTypes", s))
    }
}

impl std::str::FromStr for OrderTypes {
    type Err = EnumParseError;

    /// Reads a value from its name, as `parse` does.
    fn from_str(s: &str) -> (r: Result<OrderTypes, EnumParseError>)
        ensures
            match r {
                Ok(v) => OrderTypes::spec_parse(s@) == Some(v),
                Err(e) => OrderTypes::spec_parse(s@) is None && is_parse_error(e, "OrderTypes"@, s@),
            },
    {
        OrderTypes::parse(s)
    }
}

/// How a payment was made.
#[derive(Clone, Copy, Debug, PartialEq, Eq, Hash, Structural)]
pub enum PaymentMethods {
    External,
    CreditCard,
}

impl PaymentMethods {
    /// The name of the value.
    pub open spec fn spec_name(self) -> Seq<char> {
        match self {
            PaymentMethods::External => "External"@,
            PaymentMethods::CreditCard => "CreditCard"@,
        }
    }

    /// The value that a text names: the first, in the order of
    /// declaration, whose name is the text but for the case of ASCII
    /// letters.
    pub open spec fn spec_parse(s: Seq<char>) -> Option<PaymentMethods> {
        if same_ignoring_ascii_case(s, "External"@) {
            Some(PaymentMethods::External)
        } else if same_ignoring_ascii_case(s, "CreditCard"@) {
            Some(PaymentMethods::CreditCard)
        } else {
            None
        }
    }

    /// The name of the value.
    pub fn name(&self) -> (r: &'static str)
        ensures
            r@ == self.spec_name(),
    {
        match self {
            PaymentMethods::External => "External",
            PaymentMethods::CreditCard => "CreditCard",
        }
    }

    /// The name of the value, as an owned string.
    pub fn to_string(&self) -> (r: String)
        ensures
            r@ == self.spec_name(),
    {
        self.name().to_owned()
    }

    /// Reads a value from its name, whatever the case of its ASCII
    /// letters.
    pub fn parse(s: &str) -> (r: Result<PaymentMethods, EnumParseError>)
        ensures
            match r {
                Ok(v) => Self::spec_parse(s@) == Some(v),
                Err(e) => Self::spec_parse(s@) is None && is_parse_error(e, "PaymentMethods"@, s@),
            },
    {
        if eq_ignore_ascii_case(s, "External") {
            return Ok(PaymentMethods::External);
        }
        if eq_ignore_ascii_case(s, "CreditCard") {
            return Ok(PaymentMethods::CreditCard);
        }
        Err(parse_error("PaymentMethods", s))
    }
}

impl std::str::FromStr for PaymentMethods {
    type Err = EnumParseError;

    /// Reads a value from its name, as `parse` does.
    fn from_str(s: &str) -> (r: Result<PaymentMethods, EnumParseError>)
        ensures
            match r {
                Ok(v) => PaymentMethods::spec_parse(s@) == Some(v),
                Err(e) => PaymentMethods::spec_parse(s@) is None && is_parse_error(e, "PaymentMethods"@, s@),
            },
    {
        PaymentMethods::parse(s)
    }
}

/// How a payment stands.
#[derive(Clone, Copy, Debug, PartialEq, Eq, Hash, Structural)]
pub enum PaymentStatus {
    Authorized,
    Completed,
}

impl PaymentStatus {
    /// The name of the value.
    pub open spec fn spec_name(self) -> Seq<char> {
        match self {
            PaymentStatus::Authorized => "Authorized"@,
            PaymentStatus::Completed => "Completed"@,
        }
    }

    /// The value that a text names: the first, in the order of
    /// declaration, whose name is the text but for the case of ASCII
    /// letters.
    pub open spec fn spec_parse(s: Seq<char>) -> Option<PaymentStatus> {
        if same_ignoring_ascii_case(s, "Authorized"@) {
            Some(PaymentStatus::Authorized)
        } else if same_ignoring_ascii_case(s, "Completed"@) {
            Some(PaymentStatus::Completed)
        } else {
            None
        }
    }

    /// The name of the value.
    pub fn name(&self) -> (r: &'static str)
        ensures
            r@ == self.spec_name(),
    {
        match self {
            PaymentStatus::Authorized => "Authorized",
            PaymentStatus::Completed => "Completed",
        }
    }

    /// The name of the value, as an owned string.
    pub fn to_string(&self) -> (r: String)
        ensures
            r@ == self.spec_name(),
    {
        self.name().to_owned()
    }

    /// Reads a value from its name, whatever the case of its ASCII
    /// letters.
    pub fn parse(s: &str) -> (r: Result<PaymentStatus, EnumParseError>)
        ensures
            match r {
                Ok(v) => Self::spec_parse(s@) == Some(v),
                Err(e) => Self::spec_parse(s@) is None && is_parse_error(e, "PaymentStatus"@, s@),
            },
    {
        if eq_ignore_ascii_case(s, "Authorized") {
            return Ok(PaymentStatus::Authorized);
        }
        if eq_ignore_ascii_case(s, "Completed") {
            return Ok(PaymentStatus::Completed);
        }
        Err(parse_error("PaymentStatus", s))
    }
}

impl std::str::FromStr for PaymentStatus {
    type Err = EnumParseError;

    /// Reads a value from its name, as `parse` does.
    fn from_str(s: &str) -> (r: Result<PaymentStatus, EnumParseError>)
        ensures
            match r {
                Ok(v) => PaymentStatus::spec_parse(s@) == Some(v),
                Err(e) => PaymentStatus::spec_parse(s@) is None && is_parse_error(e, "PaymentStatus"@, s@),
            },
    {
        PaymentStatus::parse(s)
    }
}

/// Whether events before or after now are asked for.
#[derive(Clone, Copy, Debug, PartialEq, Eq, Hash, Structural)]
pub enum PastOrUpcoming {
    Past,
    Upcoming,
}

impl PastOrUpcoming {
    /// The name of the value.
    pub open spec fn spec_name(self) -> Seq<char> {
        match self {
            PastOrUpcoming::Past => "Past"@,
            PastOrUpcoming::Upcoming => "Upcoming"@,
        }
    }

    /// The value that a text names: the first, in the order of
    /// declaration, whose name is the text but for the case of ASCII
    /// letters.
    pub open spec fn spec_parse(s: Seq<char>) -> Option<PastOrUpcoming> {
        if same_ignoring_ascii_case(s, "Past"@) {
            Some(PastOrUpcoming::Past)
        } else if same_ignoring_ascii_case(s, "Upcoming"@) {
            Some(PastOrUpcoming::Upcoming)
        } else {
            None
        }
    }

    /// The name of the value.
    pub fn name(&self) -> (r: &'static str)
        ensures
            r@ == self.spec_name(),
    {
        match self {
            PastOrUpcoming::Past => "Past",
            PastOrUpcoming::Upcoming => "Upcoming",
        }
    }

    /// The name of the value, as an owned string.
    pub fn to_string(&self) -> (r: String)
        ensures
            r@ == self.spec_name(),
    {
        self.name().to_owned()
    }

    /// Reads a value from its name, whatever the case of its ASCII
    /// letters.
    pub fn parse(s: &str) -> (r: Result<PastOrUpcoming, EnumParseError>)
        ensures
            match r {
                Ok(v) => Self::spec_parse(s@) == Some(v),
                Err(e) => Self::spec_parse(s@) is None && is_parse_error(e, "PastOrUpcoming"@, s@),
            },
    {
        if eq_ignore_ascii_case(s, "Past") {
            return Ok(PastOrUpcoming::Past);
        }
        if eq_ignore_ascii_case(s, "Upcoming") {
            return Ok(PastOrUpcoming::Upcoming);
        }
        Err(parse_error("PastOrUpcoming", s))
    }
}

impl std::str::FromStr for PastOrUpcoming {
    type Err = EnumParseError;

    /// Reads a value from its name, as `parse` does.
    fn from_str(s: &str) -> (r: Result<PastOrUpcoming, EnumParseError>)
        ensures
            match r {
                Ok(v) => PastOrUpcoming::spec_parse(s@) == Some(v),
                Err(e) => PastOrUpcoming::spec_parse(s@) is None && is_parse_error(e, "PastOrUpcoming"@, s@),
            },
    {
        PastOrUpcoming::parse(s)
    }
}

/// The role of a user, globally or within an organization.
#[derive(Clone, Copy, Debug, PartialEq, Eq, Hash, Structural)]
pub enum Roles {
    Admin,
    OrgMember,
    OrgOwner,
    OrgAdmin,
    OrgBoxOffice,
    DoorPerson,
    Promoter,
    PromoterReadOnly,
    User,
}

impl Roles {
    /// The name of the value.
    pub open spec fn spec_name(self) -> Seq<char> {
        match self {
            Roles::Admin => "Admin"@,
            Roles::OrgMember => "OrgMember"@,
            Roles::OrgOwner => "OrgOwner"@,
            Roles::OrgAdmin => "OrgAdmin"@,
            Roles::OrgBoxOffice => "OrgBoxOffice"@,
            Roles::DoorPerson => "DoorPerson"@,
            Roles::Promoter => "Promoter"@,
            Roles::PromoterReadOnly => "PromoterReadOnly"@,
            Roles::User => "User"@,
        }
    }

    /// The value that a text names: the first, in the order of
    /// declaration, whose name is the text but for the case of ASCII
    /// letters.
    pub open spec fn spec_parse(s: Seq<char>) -> Option<Roles> {
        if same_ignoring_ascii_case(s, "Admin"@) {
            Some(Roles::Admin)
        } else if same_ignoring_ascii_case(s, "OrgMember"@) {
            Some(Roles::OrgMember)
        } else if same_ignoring_ascii_case(s, "OrgOwner"@) {
            Some(Roles::OrgOwner)
        } else if same_ignoring_ascii_case(s, "OrgAdmin"@) {
            Some(Roles::OrgAdmin)
        } else if same_ignoring_ascii_case(s, "OrgBoxOffice"@) {
            Some(Roles::OrgBoxOffice)
        } else if same_ignoring_ascii_case(s, "DoorPerson"@) {
            Some(Roles::DoorPerson)
        } else if same_ignoring_ascii_case(s, "Promoter"@) {
            Some(Roles::Promoter)
        } else if same_ignoring_ascii_case(s, "PromoterReadOnly"@) {
            Some(Roles::PromoterReadOnly)
        } else if same_ignoring_ascii_case(s, "User"@) {
            Some(Roles::User)
        } else {
            None
        }
    }

    /// The name of the value.
    pub fn name(&self) -> (r: &'static str)
        ensures
            r@ == self.spec_name(),
    {
        match self {
            Roles::Admin => "Admin",
            Roles::OrgMember => "OrgMember",
            Roles::OrgOwner => "OrgOwner",
            Roles::OrgAdmin => "OrgAdmin",
            Roles::OrgBoxOffice => "OrgBoxOffice",
            Roles::DoorPerson => "DoorPerson",
            Roles::Promoter => "Promoter",
            Roles::PromoterReadOnly => "PromoterReadOnly",
            Roles::User => "User",
        }
    }

    /// The name of the value, as an owned string.
    pub fn to_string(&self) -> (r: String)
        ensures
            r@ == self.spec_name(),
    {
        self.name().to_owned()
    }

    /// Reads a value from its name, whatever the case of its ASCII
    /// letters.
    pub fn parse(s: &str) -> (r: Result<Roles, EnumParseError>)
        ensures
            match r {
                Ok(v) => Self::spec_parse(s@) == Some(v),
                Err(e) => Self::spec_parse(s@) is None && is_parse_error(e, "Roles"@, s@),
            },
    {
        if eq_ignore_ascii_case(s, "Admin") {
            return Ok(Roles::Admin);
        }
        if eq_ignore_ascii_case(s, "OrgMember") {
            return Ok(Roles::OrgMember);
        }
        if eq_ignore_ascii_case(s, "OrgOwner") {
            return Ok(Roles::OrgOwner);
        }
        if eq_ignore_ascii_case(s, "OrgAdmin") {
            return Ok(Roles::OrgAdmin);
        }
        if eq_ignore_ascii_case(s, "OrgBoxOffice") {
            return Ok(Roles::OrgBoxOffice);
        }
        if eq_ignore_ascii_case(s, "DoorPerson") {
            return Ok(Roles::DoorPerson);
        }
        if eq_ignore_ascii_case(s, "Promoter") {
            return Ok(Roles::Promoter);
        }
        if eq_ignore_ascii_case(s, "PromoterReadOnly") {
            return Ok(Roles::PromoterReadOnly);
        }
        if eq_ignore_ascii_case(s, "User") {
            return Ok(Roles::User);
        }
        Err(parse_error("Roles", s))
    }
}

impl std::str::FromStr for Roles {
    type Err = EnumParseError;

    /// Reads a value from its name, as `parse` does.
    fn from_str(s: &str) -> (r: Result<Roles, EnumParseError>)
        ensures
            match r {
                Ok(v) => Roles::spec_parse(s@) == Some(v),
                Err(e) => Roles::spec_parse(s@) is None && is_parse_error(e, "Roles"@, s@),
            },
    {
        Roles::parse(s)
    }
}

/// The direction of a sort.
#[derive(Clone, Copy, Debug, PartialEq, Eq, Hash, Structural)]
pub enum SortingDir {
    Asc,
    Desc,
}

impl SortingDir {
    /// The name of the value.
    pub open spec fn spec_name(self) -> Seq<char> {
        match self {
            SortingDir::Asc => "Asc"@,
            SortingDir::Desc => "Desc"@,
        }
    }

    /// The value that a text names: the first, in the order of
    /// declaration, whose name is the text but for the case of ASCII
    /// letters.
    pub open spec fn spec_parse(s: Seq<char>) -> Option<SortingDir> {
        if same_ignoring_ascii_case(s, "Asc"@) {
            Some(SortingDir::Asc)
        } else if same_ignoring_ascii_case(s, "Desc"@) {
            Some(SortingDir::Desc)
        } else {
            None
        }
    }

    /// The name of the value.
    pub fn name(&self) -> (r: &'static str)
        ensures
            r@ == self.spec_name(),
    {
        match self {
            SortingDir::Asc => "Asc",
            SortingDir::Desc => "Desc",
        }
    }

    /// The name of the value, as an owned string.
    pub fn to_string(&self) -> (r: String)
        ensures
            r@ == self.spec_name(),
    {
        self.name().to_owned()
    }

    /// Reads a value from its name, whatever the case of its ASCII
    /// letters.
    pub fn parse(s: &str) -> (r: Result<SortingDir, EnumParseError>)
        ensures
            match r {
                Ok(v) => Self::spec_parse(s@) == Some(v),
                Err(e) => Self::spec_parse(s@) is None && is_parse_error(e, "SortingDir"@, s@),
            },
    {
        if eq_ignore_ascii_case(s, "Asc") {
            return Ok(SortingDir::Asc);
        }
        if eq_ignore_ascii_case(s, "Desc") {
            return Ok(SortingDir::Desc);
        }
        Err(parse_error("SortingDir", s))
    }
}

impl std::str::FromStr for SortingDir {
    type Err = EnumParseError;

    /// Reads a value from its name, as `parse` does.
    fn from_str(s: &str) -> (r: Result<SortingDir, EnumParseError>)
        ensures
            match r {
                Ok(v) => SortingDir::spec_parse(s@) == Some(v),
                Err(e) => SortingDir::spec_parse(s@) is None && is_parse_error(e, "SortingDir"@, s@),
            },
    {
        SortingDir::parse(s)
    }
}

/// A table that a domain event refers to.
#[derive(Clone, Copy, Debug, PartialEq, Eq, Hash, Structural)]
pub enum Tables {
    Orders,
    Payments,
    PaymentMethods,
}

impl Tables {
    /// The name of the value.
    pub open spec fn spec_name(self) -> Seq<char> {
        match self {
            Tables::Orders => "Orders"@,
            Tables::Payments => "Payments"@,
            Tables::PaymentMethods => "PaymentMethods"@,
        }
    }

    /// The value that a text names: the first, in the order of
    /// declaration, whose name is the text but for the case of ASCII
    /// letters.
    pub open spec fn spec_parse(s: Seq<char>) -> Option<Tables> {
        if same_ignoring_ascii_case(s, "Orders"@) {
            Some(Tables::Orders)
        } else if same_ignoring_ascii_case(s, "Payments"@) {
            Some(Tables::Payments)
        } else if same_ignoring_ascii_case(s, "PaymentMethods"@) {
            Some(Tables::PaymentMethods)
        } else {
            None
        }
    }

    /// The name of the value.
    pub fn name(&self) -> (r: &'static str)
        ensures
            r@ == self.spec_name(),
    {
        match self {
            Tables::Orders => "Orders",
            Tables::Payments => "Payments",
            Tables::PaymentMethods => "PaymentMethods",
        }
    }

    /// The name of the value, as an owned string.
    pub fn to_string(&self) -> (r: String)
        ensures
            r@ == self.spec_name(),
    {
        self.name().to_owned()
    }

    /// Reads a value from its name, whatever the case of its ASCII
    /// letters.
    pub fn parse(s: &str) -> (r: Result<Tables, EnumParseError>)
        ensures
            match r {
                Ok(v) => Self::spec_parse(s@) == Some(v),
                Err(e) => Self::spec_parse(s@) is None && is_parse_error(e, "Tables"@, s@),
            },
    {
        if eq_ignore_ascii_case(s, "Orders") {
            return Ok(Tables::Orders);
        }
        if eq_ignore_ascii_case(s, "Payments") {
            return Ok(Tables::Payments);
        }
        if eq_ignore_ascii_case(s, "PaymentMethods") {
            return Ok(Tables::PaymentMethods);
        }
        Err(parse_error("Tables", s))
    }
}

impl std::str::FromStr for Tables {
    type Err = EnumParseError;

    /// Reads a value from its name, as `parse` does.
    fn from_str(s: &str) -> (r: Result<Tables, EnumParseError>)
        ensures
            match r {
                Ok(v) => Tables::spec_parse(s@) == Some(v),
                Err(e) => Tables::spec_parse(s@) is None && is_parse_error(e, "Tables"@, s@),
            },
    {
        Tables::parse(s)
    }
}

/// The status of a ticket instance.
#[derive(Clone, Copy, Debug, PartialEq, Eq, Hash, Structural)]
pub enum TicketInstanceStatus {
    Available,
    Reserved,
    Purchased,
    Redeemed,
    Nullified,
}

impl TicketInstanceStatus {
    /// The name of the value.
    pub open spec fn spec_name(self) -> Seq<char> {
        match self {
            TicketInstanceStatus::Available => "Available"@,
            TicketInstanceStatus::Reserved => "Reserved"@,
            TicketInstanceStatus::Purchased => "Purchased"@,
            TicketInstanceStatus::Redeemed => "Redeemed"@,
            TicketInstanceStatus::Nullified => "Nullified"@,
        }
    }

    /// The value that a text names: the first, in the order of
    /// declaration, whose name is the text but for the case of ASCII
    /// letters.
    pub open spec fn spec_parse(s: Seq<char>) -> Option<TicketInstanceStatus> {
        if same_ignoring_ascii_case(s, "Available"@) {
            Some(TicketInstanceStatus::Available)
        } else if same_ignoring_ascii_case(s, "Reserved"@) {
            Some(TicketInstanceStatus::Reserved)
        } else if same_ignoring_ascii_case(s, "Purchased"@) {
            Some(TicketInstanceStatus::Purchased)
        } else if same_ignoring_ascii_case(s, "Redeemed"@) {
            Some(TicketInstanceStatus::Redeemed)
        } else if same_ignoring_ascii_case(s, "Nullified"@) {
            Some(TicketInstanceStatus::Nullified)
        } else {
            None
        }
    }

    /// The name of the value.
    pub fn name(&self) -> (r: &'static str)
        ensures
            r@ == self.spec_name(),
    {
        match self {
            TicketInstanceStatus::Available => "Available",
            TicketInstanceStatus::Reserved => "Reserved",
            TicketInstanceStatus::Purchased => "Purchased",
            TicketInstanceStatus::Redeemed => "Redeemed",
            TicketInstanceStatus::Nullified => "Nullified",
        }
    }

    /// The name of the value, as an owned string.
    pub fn to_string(&self) -> (r: String)
        ensures
            r@ == self.spec_name(),
    {
        self.name().to_owned()
    }

    /// Reads a value from its name, whatever the case of its ASCII
    /// letters.
    pub fn parse(s: &str) -> (r: Result<TicketInstanceStatus, EnumParseError>)
        ensures
            match r {
                Ok(v) => Self::spec_parse(s@) == Some(v),
                Err(e) => Self::spec_parse(s@) is None && is_parse_error(e, "TicketInstanceStatus"@, s@),
            },
    {
        if eq_ignore_ascii_case(s, "Available") {
            return Ok(TicketInstanceStatus::Available);
        }
        if eq_ignore_ascii_case(s, "Reserved") {
            return Ok(TicketInstanceStatus::Reserved);
        }
        if eq_ignore_ascii_case(s, "Purchased") {
            return Ok(TicketInstanceStatus::Purchased);
        }
        if eq_ignore_ascii_case(s, "Redeemed") {
            return Ok(TicketInstanceStatus::Redeemed);
        }
        if eq_ignore_ascii_case(s, "Nullified") {
            return Ok(TicketInstanceStatus::Nullified);
        }
        Err(parse_error("TicketInstanceStatus", s))
    }
}

impl std::str::FromStr for TicketInstanceStatus {
    type Err = EnumParseError;

    /// Reads a value from its name, as `parse` does.
    fn from_str(s: &str) -> (r: Result<TicketInstanceStatus, EnumParseError>)
        ensures
            match r {
                Ok(v) => TicketInstanceStatus::spec_parse(s@) == Some(v),
                Err(e) => TicketInstanceStatus::spec_parse(s@) is None && is_parse_error(e, "TicketInstanceStatus"@, s@),
            },
    {
        TicketInstanceStatus::parse(s)
    }
}

/// The state of a pricing tier.
#[derive(Clone, Copy, Debug, PartialEq, Eq, Hash, Structural)]
pub enum TicketPricingStatus {
    Published,
    Deleted,
}

impl TicketPricingStatus {
    /// The name of the value.
    pub open spec fn spec_name(self) -> Seq<char> {
        match self {
            TicketPricingStatus::Published => "Published"@,
            TicketPricingStatus::Deleted => "Deleted"@,
        }
    }

    /// The value that a text names: the first, in the order of
    /// declaration, whose name is the text but for the case of ASCII
    /// letters.
    pub open spec fn spec_parse(s: Seq<char>) -> Option<TicketPricingStatus> {
        if same_ignoring_ascii_case(s, "Published"@) {
            Some(TicketPricingStatus::Published)
        } else if same_ignoring_ascii_case(s, "Deleted"@) {
            Some(TicketPricingStatus::Deleted)
        } else {
            None
        }
    }

    /// The name of the value.
    pub fn name(&self) -> (r: &'static str)
        ensures
            r@ == self.spec_name(),
    {
        match self {
            TicketPricingStatus::Published => "Published",
            TicketPricingStatus::Deleted => "Deleted",
        }
    }

    /// The name of the value, as an owned string.
    pub fn to_string(&self) -> (r: String)
        ensures
            r@ == self.spec_name(),
    {
        self.name().to_owned()
    }

    /// Reads a value from its name, whatever the case of its ASCII
    /// letters.
    pub fn parse(s: &str) -> (r: Result<TicketPricingStatus, EnumParseError>)
        ensures
            match r {
                Ok(v) => Self::spec_parse(s@) == Some(v),
                Err(e) => Self::spec_parse(s@) is None && is_parse_error(e, "TicketPricingStatus"@, s@),
            },
    {
        if eq_ignore_ascii_case(s, "Published") {
            return Ok(TicketPricingStatus::Published);
        }
        if eq_ignore_ascii_case(s, "Deleted") {
            return Ok(TicketPricingStatus::Deleted);
        }
        Err(parse_error("TicketPricingStatus", s))
    }
}

impl std::str::FromStr for TicketPricingStatus {
    type Err = EnumParseError;

    /// Reads a value from its name, as `parse` does.
    fn from_str(s: &str) -> (r: Result<TicketPricingStatus, EnumParseError>)
        ensures
            match r {
                Ok(v) => TicketPricingStatus::spec_parse(s@) == Some(v),
                Err(e) => TicketPricingStatus::spec_parse(s@) is None && is_parse_error(e, "TicketPricingStatus"@, s@),
            },
    {
        TicketPricingStatus::parse(s)
    }
}

/// The state of a ticket type.
#[derive(Clone, Copy, Debug, PartialEq, Eq, Hash, Structural)]
pub enum TicketTypeStatus {
    NoActivePricing,
    Published,
    SoldOut,
}

impl TicketTypeStatus {
    /// The name of the value.
    pub open spec fn spec_name(self) -> Seq<char> {
        match self {
            TicketTypeStatus::NoActivePricing => "NoActivePricing"@,
            TicketTypeStatus::Published => "Published"@,
            TicketTypeStatus::SoldOut => "SoldOut"@,
        }
    }

    /// The value that a text names: the first, in the order of
    /// declaration, whose name is the text but for the case of ASCII
    /// letters.
    pub open spec fn spec_parse(s: Seq<char>) -> Option<TicketTypeStatus> {
        if same_ignoring_ascii_case(s, "NoActivePricing"@) {
            Some(TicketTypeStatus::NoActivePricing)
        } else if same_ignoring_ascii_case(s, "Published"@) {
            Some(TicketTypeStatus::Published)
        } else if same_ignoring_ascii_case(s, "SoldOut"@) {
            Some(TicketTypeStatus::SoldOut)
        } else {
            None
        }
    }

    /// The name of the value.
    pub fn name(&self) -> (r: &'static str)
        ensures
            r@ == self.spec_name(),
    {
        match self {
            TicketTypeStatus::NoActivePricing => "NoActivePricing",
            TicketTypeStatus::Published => "Published",
            TicketTypeStatus::SoldOut => "SoldOut",
        }
    }

    /// The name of the value, as an owned string.
    pub fn to_string(&self) -> (r: String)
        ensures
            r@ == self.spec_name(),
    {
        self.name().to_owned()
    }

    /// Reads a value from its name, whatever the case of its ASCII
    /// letters.
    pub fn parse(s: &str) -> (r: Result<TicketTypeStatus, EnumParseError>)
        ensures
            match r {
                Ok(v) => Self::spec_parse(s@) == Some(v),
                Err(e) => Self::spec_parse(s@) is None && is_parse_error(e, "TicketTypeStatus"@, s@),
            },
    {
        if eq_ignore_ascii_case(s, "NoActivePricing") {
            return Ok(TicketTypeStatus::NoActivePricing);
        }
        if eq_ignore_ascii_case(s, "Published") {
            return Ok(TicketTypeStatus::Published);
        }
        if eq_ignore_ascii_case(s, "SoldOut") {
            return Ok(TicketTypeStatus::SoldOut);
        }
        Err(parse_error("TicketTypeStatus", s))
    }
}

impl std::str::FromStr for TicketTypeStatus {
    type Err = EnumParseError;

    /// Reads a value from its name, as `parse` does.
    fn from_str(s: &str) -> (r: Result<TicketTypeStatus, EnumParseError>)
        ensures
            match r {
                Ok(v) => TicketTypeStatus::spec_parse(s@) == Some(v),
                Err(e) => TicketTypeStatus::spec_parse(s@) is None && is_parse_error(e, "TicketTypeStatus"@, s@),
            },
    {
        TicketTypeStatus::parse(s)
    }
}

impl Default for EventStatus {
    fn default() -> (r: EventStatus)
        ensures
            r == EventStatus::Draft,
    {
        EventStatus::Draft
    }
}

} // verus!
