//! The failures that the engine reports to its caller.

use vstd::prelude::*;

verus! {

/// What a field-scoped validation failure is about.
#[derive(Clone, Copy, Debug, PartialEq, Eq, Structural)]
pub enum ValidationError {
    /// The requested quantity is not a multiple of the ticket type's increment.
    QuantityInvalidIncrement,
    /// Fewer claimable ticket instances exist than were requested.
    QuantityNotAvailable,
    /// A hold's quantity may not drop below the comps already assigned from it.
    AssignedCompCountGreaterThanQuantity,
    /// The redemption code names no code or hold.
    RedemptionCodeUnknown,
    /// The code or hold does not cover the requested ticket type.
    RedemptionCodeNotApplicable,
    /// The code is not, or no longer, within its validity window.
    CodeNotValidForCurrentDatetime,
    /// The hold is past its end.
    HoldNotValidForCurrentDatetime,
    /// The code or hold has too little quantity left.
    RedemptionQuantityExhausted,
    /// The ticket type has no pricing tier that can be sold now.
    NoActivePricing,
    /// A line item lacks a live reservation for each of its tickets.
    TicketNotReserved,
    /// A ticket of the line item was nullified.
    TicketNullified,
    /// A discount hold must state its discount.
    DiscountRequired,
}

impl ValidationError {
    /// The field that the failure is about.
    pub open spec fn spec_field(self) -> Seq<char> {
        match self {
            ValidationError::QuantityInvalidIncrement => "quantity"@,
            ValidationError::QuantityNotAvailable => "quantity"@,
            ValidationError::AssignedCompCountGreaterThanQuantity => "quantity"@,
            ValidationError::RedemptionCodeUnknown => "redemption_code"@,
            ValidationError::RedemptionCodeNotApplicable => "redemption_code"@,
            ValidationError::CodeNotValidForCurrentDatetime => "code_id"@,
            ValidationError::HoldNotValidForCurrentDatetime => "hold_id"@,
            ValidationError::RedemptionQuantityExhausted => "redemption_code"@,
            ValidationError::NoActivePricing => "ticket_type_id"@,
            ValidationError::TicketNotReserved => "ticket_instance_id"@,
            ValidationError::TicketNullified => "ticket_instance_id"@,
            ValidationError::DiscountRequired => "discount_in_cents"@,
        }
    }

    /// The code of the failure.
    pub open spec fn spec_code(self) -> Seq<char> {
        match self {
            ValidationError::QuantityInvalidIncrement => "quantity_invalid_increment"@,
            ValidationError::QuantityNotAvailable => "quantity_not_available"@,
            ValidationError::AssignedCompCountGreaterThanQuantity =>
                "assigned_comp_count_greater_than_quantity"@,
            ValidationError::RedemptionCodeUnknown => "redemption_code_unknown"@,
            ValidationError::RedemptionCodeNotApplicable => "redemption_code_not_applicable"@,
            ValidationError::CodeNotValidForCurrentDatetime =>
                "Code not valid for current datetime"@,
            ValidationError::HoldNotValidForCurrentDatetime =>
                "Hold not valid for current datetime"@,
            ValidationError::RedemptionQuantityExhausted => "redemption_quantity_exhausted"@,
            ValidationError::NoActivePricing => "no_active_pricing"@,
            ValidationError::TicketNotReserved => "ticket_not_reserved"@,
            ValidationError::TicketNullified => "ticket_nullified"@,
            ValidationError::DiscountRequired => "required"@,
        }
    }

    /// The field that the failure is about.
    pub fn field(&self) -> (r: &'static str)
        ensures
            r@ == self.spec_field(),
    {
        match self {
            ValidationError::QuantityInvalidIncrement => "quantity",
            ValidationError::QuantityNotAvailable => "quantity",
            ValidationError::AssignedCompCountGreaterThanQuantity => "quantity",
            ValidationError::RedemptionCodeUnknown => "redemption_code",
            ValidationError::RedemptionCodeNotApplicable => "redemption_code",
            ValidationError::CodeNotValidForCurrentDatetime => "code_id",
            ValidationError::HoldNotValidForCurrentDatetime => "hold_id",
            ValidationError::RedemptionQuantityExhausted => "redemption_code",
            ValidationError::NoActivePricing => "ticket_type_id",
            ValidationError::TicketNotReserved => "ticket_instance_id",
            ValidationError::TicketNullified => "ticket_instance_id",
            ValidationError::DiscountRequired => "discount_in_cents",
        }
    }

    /// The code of the failure.
    pub fn code(&self) -> (r: &'static str)
        ensures
            r@ == self.spec_code(),
    {
        match self {
            ValidationError::QuantityInvalidIncrement => "quantity_invalid_increment",
            ValidationError::QuantityNotAvailable => "quantity_not_available",
            ValidationError::AssignedCompCountGreaterThanQuantity =>
                "assigned_comp_count_greater_than_quantity",
            ValidationError::RedemptionCodeUnknown => "redemption_code_unknown",
            ValidationError::RedemptionCodeNotApplicable => "redemption_code_not_applicable",
            ValidationError::CodeNotValidForCurrentDatetime =>
                "Code not valid for current datetime",
            ValidationError::HoldNotValidForCurrentDatetime =>
                "Hold not valid for current datetime",
            ValidationError::RedemptionQuantityExhausted => "redemption_quantity_exhausted",
            ValidationError::NoActivePricing => "no_active_pricing",
            ValidationError::TicketNotReserved => "ticket_not_reserved",
            ValidationError::TicketNullified => "ticket_nullified",
            ValidationError::DiscountRequired => "required",
        }
    }

    /// The failure in words.
    pub open spec fn spec_message(self) -> Seq<char> {
        match self {
            ValidationError::QuantityInvalidIncrement =>
                "Order item quantity invalid for ticket pricing increment"@,
            ValidationError::QuantityNotAvailable =>
                "Could not reserve tickets, not enough tickets are available"@,
            ValidationError::AssignedCompCountGreaterThanQuantity =>
                "Existing comp total quantity greater than new quantity"@,
            ValidationError::RedemptionCodeUnknown => "Redemption code is not known"@,
            ValidationError::RedemptionCodeNotApplicable =>
                "Redemption code does not apply to the ticket type"@,
            ValidationError::CodeNotValidForCurrentDatetime =>
                "Code not valid for current datetime"@,
            ValidationError::HoldNotValidForCurrentDatetime =>
                "Hold not valid for current datetime"@,
            ValidationError::RedemptionQuantityExhausted =>
                "Redemption code has too little quantity left"@,
            ValidationError::NoActivePricing => "Ticket type has no pricing that sells now"@,
            ValidationError::TicketNotReserved => "Ticket is not reserved"@,
            ValidationError::TicketNullified => "Ticket was nullified"@,
            ValidationError::DiscountRequired => "Discount required for a discount hold"@,
        }
    }

    /// The failure in words.
    pub fn message(&self) -> (r: &'static str)
        ensures
            r@ == self.spec_message(),
    {
        match self {
            ValidationError::QuantityInvalidIncrement =>
                "Order item quantity invalid for ticket pricing increment",
            ValidationError::QuantityNotAvailable =>
                "Could not reserve tickets, not enough tickets are available",
            ValidationError::AssignedCompCountGreaterThanQuantity =>
                "Existing comp total quantity greater than new quantity",
            ValidationError::RedemptionCodeUnknown => "Redemption code is not known",
            ValidationError::RedemptionCodeNotApplicable =>
                "Redemption code does not apply to the ticket type",
            ValidationError::CodeNotValidForCurrentDatetime =>
                "Code not valid for current datetime",
            ValidationError::HoldNotValidForCurrentDatetime =>
                "Hold not valid for current datetime",
            ValidationError::RedemptionQuantityExhausted =>
                "Redemption code has too little quantity left",
            ValidationError::NoActivePricing => "Ticket type has no pricing that sells now",
            ValidationError::TicketNotReserved => "Ticket is not reserved",
            ValidationError::TicketNullified => "Ticket was nullified",
            ValidationError::DiscountRequired => "Discount required for a discount hold",
        }
    }
}

/// Every way an engine operation can fail; nothing is retried internally.
#[derive(Clone, Copy, Debug, PartialEq, Eq, Structural)]
pub enum EngineError {
    /// Recoverable and field-scoped.
    Validation(ValidationError),
    /// No ticket instances are left to reserve.
    InsufficientInventory,
    /// An order, item, instance or catalog entry was looked up and is not there.
    NotFound,
    /// A status change that the state machines do not allow.
    InvalidStateTransition,
    /// The unit to refund was refunded before.
    AlreadyRefunded,
}

} // verus!
