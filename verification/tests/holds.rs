use bigneon::codes::{Comp, Hold, Outcome, UpdateHoldAttributes};
use bigneon::enums::HoldTypes;
use bigneon::errors::{EngineError, ValidationError};

fn create_hold(hold_type: HoldTypes) -> Hold {
    let discount = match hold_type {
        HoldTypes::Discount => Some(10),
        HoldTypes::Comp => None,
    };
    let mut hold = Hold::create(
        1,
        "Hold".to_string(),
        2,
        3,
        "REDEEM".to_string(),
        discount,
        None,
        None,
        hold_type,
    )
    .unwrap();
    hold.set_quantity(10).unwrap();
    hold
}

fn comp(id: u128, name: &str, quantity: u32) -> Comp {
    Comp { id, name: name.to_string(), quantity }
}

#[test]
pub fn holds_create() {
    Hold::create(
        1,
        "test".to_string(),
        2,
        3,
        "IHAVEACODE".to_string(),
        Some(0),
        None,
        Some(4),
        HoldTypes::Discount,
    )
    .unwrap();
}

#[test]
pub fn create_with_validation_errors() {
    let result = Hold::create(
        1,
        "test".to_string(),
        2,
        3,
        "IHAVEACODE".to_string(),
        None,
        None,
        Some(4),
        HoldTypes::Discount,
    );

    match result {
        Ok(_) => {
            panic!("Expected validation error");
        }
        Err(error) => match error {
            EngineError::Validation(error) => {
                assert_eq!(error.field(), "discount_in_cents");
                assert_eq!(error.code(), "required");
            }
            _ => panic!("Expected validation error"),
        },
    }
}

#[test]
pub fn holds_update() {
    let mut hold = create_hold(HoldTypes::Discount);

    let update_patch = UpdateHoldAttributes {
        discount_in_cents: Some(10),
        max_per_order: Some(None),
        end_at: Some(None),
        name: Some("New name".to_string()),
        hold_type: None,
    };
    hold.update(update_patch).unwrap();
    assert_eq!(hold.name, "New name".to_string());
    assert_eq!(hold.max_per_order, None);
    assert_eq!(hold.end_at, None);
    assert_eq!(hold.discount_in_cents, Some(10));
}

#[test]
pub fn update_with_validation_errors() {
    let mut hold = create_hold(HoldTypes::Comp);
    assert!(hold.discount_in_cents.is_none());

    let update_patch = UpdateHoldAttributes {
        hold_type: Some(HoldTypes::Discount),
        name: None,
        discount_in_cents: None,
        end_at: None,
        max_per_order: None,
    };
    let result = hold.update(update_patch);
    match result {
        Ok(_) => {
            panic!("Expected validation error");
        }
        Err(error) => match error {
            EngineError::Validation(error) => {
                assert_eq!(error.field(), "discount_in_cents");
                assert_eq!(error.code(), "required");
            }
            _ => panic!("Expected validation error"),
        },
    }
    assert_eq!(hold.hold_type, HoldTypes::Comp);
}

#[test]
pub fn comps_and_sum() {
    let mut hold1 = create_hold(HoldTypes::Comp);
    let mut hold2 = create_hold(HoldTypes::Comp);
    hold1.add_comp(comp(11, "Comp1", 3)).unwrap();
    hold1.add_comp(comp(12, "Comp2", 1)).unwrap();
    hold2.add_comp(comp(13, "Comp3", 1)).unwrap();

    let update_patch = UpdateHoldAttributes {
        hold_type: Some(HoldTypes::Discount),
        discount_in_cents: Some(0),
        name: None,
        end_at: None,
        max_per_order: None,
    };
    hold2.update(update_patch).unwrap();

    let found_comps = hold1.comps().unwrap();
    let found: Vec<(u128, &str, u32)> =
        found_comps.iter().map(|c| (c.id, c.name.as_str(), c.quantity)).collect();
    assert_eq!(vec![(11, "Comp1", 3), (12, "Comp2", 1)], found);
    assert_eq!(4, hold1.comps_sum());

    let found_comps = hold2.comps();
    assert!(found_comps.is_err());
    assert_eq!(0, hold2.comps_sum());
}

#[test]
pub fn set_quantity() {
    let mut hold = create_hold(HoldTypes::Discount);
    hold.set_quantity(30).unwrap();
    assert_eq!(hold.quantity(), 30);
}

#[test]
pub fn set_quantity_with_validation_errors() {
    let mut hold = create_hold(HoldTypes::Comp);

    // Initial value of 30
    hold.set_quantity(30).unwrap();
    assert_eq!(hold.quantity(), 30);

    // Comp taking 29 of the hold allows a set quantity of 29 still
    hold.add_comp(comp(11, "Comp", 29)).unwrap();
    hold.set_quantity(29).unwrap();
    assert_eq!(hold.quantity(), 29);

    // Fails to set quantity to 28 which would be below comp size
    let result = hold.set_quantity(28);
    match result {
        Ok(_) => {
            panic!("Expected validation error");
        }
        Err(error) => match error {
            EngineError::Validation(error) => {
                assert_eq!(error.field(), "quantity");
                assert_eq!(error.code(), "assigned_comp_count_greater_than_quantity");
            }
            _ => panic!("Expected validation error"),
        },
    }
    assert_eq!(hold.quantity(), 29);
}

#[test]
fn comp_beyond_capacity_is_refused() {
    let mut hold = create_hold(HoldTypes::Comp);
    hold.add_comp(comp(11, "Comp", 10)).unwrap();
    let result = hold.add_comp(comp(12, "One more", 1));
    assert_eq!(
        result,
        Err(EngineError::Validation(ValidationError::AssignedCompCountGreaterThanQuantity))
    );
    assert_eq!(hold.comps_sum(), 10);
}

#[test]
fn comp_on_discount_hold_is_refused() {
    let mut hold = create_hold(HoldTypes::Discount);
    assert_eq!(hold.add_comp(comp(11, "Comp", 1)), Err(EngineError::InvalidStateTransition));
}

#[test]
fn update_to_comp_hold_with_too_many_comps_is_refused() {
    let mut hold = create_hold(HoldTypes::Comp);
    hold.add_comp(comp(11, "Comp", 8)).unwrap();
    hold.update(UpdateHoldAttributes {
        hold_type: Some(HoldTypes::Discount),
        discount_in_cents: Some(5),
        name: None,
        end_at: None,
        max_per_order: None,
    })
    .unwrap();
    hold.set_quantity(2).unwrap();
    let result = hold.update(UpdateHoldAttributes {
        hold_type: Some(HoldTypes::Comp),
        discount_in_cents: None,
        name: None,
        end_at: None,
        max_per_order: None,
    });
    assert_eq!(
        result,
        Err(EngineError::Validation(ValidationError::AssignedCompCountGreaterThanQuantity))
    );
    assert_eq!(hold.hold_type, HoldTypes::Discount);
}

#[test]
fn hold_validation_outcomes() {
    let mut hold = create_hold(HoldTypes::Discount);
    hold.end_at = Some(1_000);
    assert_eq!(hold.validate(3, 10, 500), Outcome::Valid(10));
    assert_eq!(hold.validate(3, 10, 1_000), Outcome::Valid(10));
    assert_eq!(hold.validate(3, 10, 1_001), Outcome::Expired);
    assert_eq!(hold.validate(3, 11, 500), Outcome::QuantityExhausted);
    assert_eq!(hold.validate(4, 1, 500), Outcome::NotApplicable);
    hold.allocated = 4;
    assert_eq!(hold.validate(3, 6, 500), Outcome::Valid(10));
    assert_eq!(hold.validate(3, 7, 500), Outcome::QuantityExhausted);
}
