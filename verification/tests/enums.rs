use bigneon::enums::{
    CodeTypes, DomainEventTypes, EventStatus, HoldTypes, OrderItemTypes, OrderStatus, Roles,
    TicketInstanceStatus,
};

#[test]
fn display() {
    assert_eq!(Roles::Admin.to_string(), "Admin");
    assert_eq!(Roles::OrgAdmin.to_string(), "OrgAdmin");
    assert_eq!(Roles::OrgMember.to_string(), "OrgMember");
    assert_eq!(Roles::OrgOwner.to_string(), "OrgOwner");
    assert_eq!(Roles::OrgBoxOffice.to_string(), "OrgBoxOffice");
    assert_eq!(Roles::DoorPerson.to_string(), "DoorPerson");
    assert_eq!(Roles::User.to_string(), "User");
}

#[test]
fn parse() {
    assert_eq!(Roles::Admin, "Admin".parse().unwrap());
    assert_eq!(Roles::OrgMember, "OrgMember".parse().unwrap());
    assert_eq!(Roles::OrgOwner, "OrgOwner".parse().unwrap());
    assert_eq!(Roles::OrgBoxOffice, "OrgBoxOffice".parse().unwrap());
    assert!("Invalid Role".parse::<Roles>().is_err());
}

#[test]
fn parse_ignores_ascii_case() {
    assert_eq!(Roles::parse("admin").unwrap(), Roles::Admin);
    assert_eq!(Roles::parse("ORGOWNER").unwrap(), Roles::OrgOwner);
    assert_eq!(Roles::parse("promoterreadonly").unwrap(), Roles::PromoterReadOnly);
    assert_eq!(OrderStatus::parse("partiallypaid").unwrap(), OrderStatus::PartiallyPaid);
    assert_eq!(OrderItemTypes::parse("perunitfees").unwrap(), OrderItemTypes::PerUnitFees);
    assert_eq!(TicketInstanceStatus::parse("NULLIFIED").unwrap(), TicketInstanceStatus::Nullified);
    assert_eq!(CodeTypes::parse("Access").unwrap(), CodeTypes::Access);
    assert_eq!(HoldTypes::parse("comp").unwrap(), HoldTypes::Comp);
    assert!(Roles::parse("Admin ").is_err());
    assert!(Roles::parse("Ådmin").is_err());
    assert!(Roles::parse("").is_err());
}

#[test]
fn parse_error_names_the_vocabulary_and_the_text() {
    let error = Roles::parse("Invalid Role").unwrap_err();
    assert_eq!(error.message, "Could not parse value");
    assert_eq!(error.enum_type, "Roles");
    assert_eq!(error.value, "Invalid Role");
}

#[test]
fn names_are_read_back() {
    for status in [
        OrderStatus::Draft,
        OrderStatus::PartiallyPaid,
        OrderStatus::Paid,
        OrderStatus::Cancelled,
    ] {
        assert_eq!(OrderStatus::parse(status.name()).unwrap(), status);
    }
    for event in [
        DomainEventTypes::OrderCreated,
        DomainEventTypes::OrderUpdated,
        DomainEventTypes::OrderCompleted,
    ] {
        assert_eq!(DomainEventTypes::parse(&event.to_string()).unwrap(), event);
    }
}

#[test]
fn event_status_defaults_to_draft() {
    assert_eq!(EventStatus::default(), EventStatus::Draft);
}
