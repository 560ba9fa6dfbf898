use bigneon::clock::seconds_of;
use bigneon::enums::{DomainActionTypes, Roles};
use bigneon::event_artists::{DisplayEventArtist, EventArtist};
use bigneon::invites::{
    accept_decision, invite_recipient, scope_to_invite, scope_to_revoke, valid_for_acceptance,
    AcceptDecision, InviteError, OrgInviteBuilder, Scopes,
};
use bigneon::mail::{MailError, SGContent, SGEmail, SGMailMessage, SGPersonalization, TemplateData};
use bigneon::routing::{find_executor, DomainActionError, DomainActionExecutor, DomainActionRouter};
use bigneon::tokens::new_security_token;

fn data(entries: &[(&str, &str)]) -> TemplateData {
    let mut data = TemplateData::new();
    for (name, value) in entries {
        data.insert(name.to_string(), value.to_string());
    }
    data
}

fn value_of<'a>(data: &'a TemplateData, name: &str) -> Option<&'a str> {
    data.entries.iter().rev().find(|(n, _)| n == name).map(|(_, v)| v.as_str())
}

// ---- mail ----

#[test]
fn email_message_goes_to_all_destinations_at_once() {
    let destinations = vec!["a@example.com".to_string(), "b@example.com".to_string()];
    let message = SGMailMessage::email(
        "from@example.com".to_string(),
        &destinations,
        "Hello".to_string(),
        Some("<p>Body</p>".to_string()),
    );
    assert_eq!(message.from.email, "from@example.com");
    assert_eq!(message.from.name, None);
    assert_eq!(message.subject, Some("Hello".to_string()));
    assert_eq!(message.template_id, None);
    assert_eq!(message.personalizations.len(), 1);
    let to: Vec<&str> = message.personalizations[0].to.iter().map(|e| e.email.as_str()).collect();
    assert_eq!(to, vec!["a@example.com", "b@example.com"]);
    assert!(message.personalizations[0].dynamic_template_data.is_none());
    assert_eq!(message.content.len(), 1);
    assert_eq!(message.content[0].content_type, "text/html");
    assert_eq!(message.content[0].value, "<p>Body</p>");
}

#[test]
fn email_message_without_body_holds_a_blank() {
    let message =
        SGMailMessage::email("from@example.com".to_string(), &vec![], "Hello".to_string(), None);
    assert_eq!(message.content[0].value, " ");
    assert!(message.personalizations[0].to.is_empty());
}

#[test]
fn template_message_has_one_personalization_per_destination() {
    let destinations = vec!["a@example.com".to_string(), "b@example.com".to_string()];
    let template_data = vec![data(&[("name", "A")]), data(&[("name", "B"), ("seat", "12")])];
    let message = SGMailMessage::template(
        "from@example.com".to_string(),
        &destinations,
        "d-123".to_string(),
        &template_data,
    )
    .unwrap();
    assert_eq!(message.template_id, Some("d-123".to_string()));
    assert_eq!(message.subject, None);
    assert_eq!(message.personalizations.len(), 2);
    for (i, personalization) in message.personalizations.iter().enumerate() {
        assert_eq!(personalization.to.len(), 1);
        assert_eq!(personalization.to[0].email, destinations[i]);
        let sent = personalization.dynamic_template_data.as_ref().unwrap();
        assert_eq!(sent.entries, template_data[i].entries);
    }
    assert_eq!(message.content.len(), 1);
    assert_eq!(message.content[0].value, " ");
}

#[test]
fn template_message_needs_data_for_each_destination() {
    let destinations = vec!["a@example.com".to_string(), "b@example.com".to_string()];
    let result = SGMailMessage::template(
        "from@example.com".to_string(),
        &destinations,
        "d-123".to_string(),
        &vec![data(&[("name", "A")])],
    );
    let error = result.unwrap_err();
    assert_eq!(error, MailError::MismatchedTemplateData);
    assert_eq!(error.message(), "Destination addresses mismatched with template data");
}

#[test]
fn added_template_data_overrides_by_name() {
    let mut personalization = SGPersonalization::new();
    personalization.add_template_data(data(&[("name", "A"), ("seat", "12")]));
    personalization.add_template_data(data(&[("seat", "14"), ("row", "C")]));
    let merged = personalization.dynamic_template_data.unwrap();
    assert_eq!(value_of(&merged, "name"), Some("A"));
    assert_eq!(value_of(&merged, "seat"), Some("14"));
    assert_eq!(value_of(&merged, "row"), Some("C"));
    assert_eq!(value_of(&merged, "other"), None);
}

#[test]
fn mail_parts_start_empty() {
    assert_eq!(SGEmail::new().email, "");
    assert_eq!(SGEmail::from("a@example.com".to_string()).name, None);
    assert_eq!(SGEmail::default().email, "");
    let content = SGContent::new();
    assert_eq!((content.content_type.as_str(), content.value.as_str()), ("text/html", " "));
    let content = SGContent::from(&"text/plain".to_string(), &"Hi".to_string());
    assert_eq!((content.content_type.as_str(), content.value.as_str()), ("text/plain", "Hi"));
    assert_eq!(SGContent::default().value, "");
    let message = SGMailMessage::new();
    assert!(message.content.is_empty() && message.personalizations.is_empty());
    assert_eq!(message.subject, None);
}

// ---- routing ----

#[test]
fn router_routes_each_kind_to_its_executor() {
    let mut router = DomainActionRouter::new();
    assert_eq!(router.get_executor_for(DomainActionTypes::Communication), None);
    router.set_up_executors();
    assert_eq!(
        router.get_executor_for(DomainActionTypes::Communication),
        Some(DomainActionExecutor::SendCommunication)
    );
    assert_eq!(
        find_executor(DomainActionTypes::Communication),
        DomainActionExecutor::SendCommunication
    );
}

#[test]
fn second_executor_for_a_kind_is_reported() {
    let mut router = DomainActionRouter::new();
    assert!(router
        .add_executor(DomainActionTypes::Communication, DomainActionExecutor::SendCommunication)
        .is_ok());
    let result = router
        .add_executor(DomainActionTypes::Communication, DomainActionExecutor::SendCommunication);
    match result {
        Err(DomainActionError::Simple(message)) => {
            assert_eq!(message, "Action type already has an executor")
        }
        Ok(()) => panic!("Expected an error"),
    }
    assert_eq!(router.routes.len(), 1);
}

// ---- invitations ----

#[test]
fn scope_needed_to_invite() {
    assert_eq!(scope_to_invite(Roles::OrgOwner), Ok(Scopes::OrgAdmin));
    assert_eq!(scope_to_invite(Roles::OrgAdmin), Ok(Scopes::OrgAdminUsers));
    assert_eq!(scope_to_invite(Roles::OrgMember), Ok(Scopes::OrgUsers));
    assert_eq!(scope_to_invite(Roles::DoorPerson), Ok(Scopes::OrgUsers));
    assert_eq!(scope_to_invite(Roles::OrgBoxOffice), Ok(Scopes::OrgUsers));
    assert_eq!(scope_to_invite(Roles::Promoter), Ok(Scopes::OrgUsers));
    assert_eq!(scope_to_invite(Roles::PromoterReadOnly), Ok(Scopes::OrgUsers));
    assert_eq!(scope_to_invite(Roles::Admin), Err(InviteError::RoleNotInvitable));
    assert_eq!(scope_to_invite(Roles::User), Err(InviteError::RoleNotInvitable));
    assert_eq!(InviteError::RoleNotInvitable.field(), "role");
    assert_eq!(
        InviteError::RoleNotInvitable.message(),
        "Role must be either OrgOwner or OrgMember"
    );
}

#[test]
fn scope_needed_to_revoke() {
    assert_eq!(scope_to_revoke(Roles::OrgOwner), Scopes::OrgAdmin);
    assert_eq!(scope_to_revoke(Roles::OrgAdmin), Scopes::OrgAdminUsers);
    assert_eq!(scope_to_revoke(Roles::OrgMember), Scopes::OrgUsers);
    assert_eq!(scope_to_revoke(Roles::Promoter), Scopes::OrgUsers);
    assert_eq!(scope_to_revoke(Roles::Admin), Scopes::OrgAdmin);
    assert_eq!(scope_to_revoke(Roles::User), Scopes::OrgAdmin);
}

#[test]
fn invitation_addresses_known_users_by_name() {
    assert_eq!(
        invite_recipient(Some((5, "Jeff Wilco".to_string()))),
        ("Jeff Wilco".to_string(), Some(5))
    );
    assert_eq!(invite_recipient(None), ("New user".to_string(), None));
}

#[test]
fn invitation_is_accepted_by_the_invited_only() {
    let email = "test@test.com".to_string();
    assert!(valid_for_acceptance(Some(5), &email, 5, &None));
    assert!(!valid_for_acceptance(Some(5), &email, 6, &Some(email.clone())));
    assert!(valid_for_acceptance(None, &email, 6, &Some(email.clone())));
    assert!(!valid_for_acceptance(None, &email, 6, &Some("other@test.com".to_string())));
    assert!(!valid_for_acceptance(None, &email, 6, &None));

    assert_eq!(accept_decision(Some(5), &email, &Some((5, None))), AcceptDecision::Accept);
    assert_eq!(accept_decision(Some(5), &email, &Some((6, None))), AcceptDecision::Unauthorized);
    assert_eq!(accept_decision(Some(5), &email, &None), AcceptDecision::Unauthorized);
    assert_eq!(accept_decision(None, &email, &None), AcceptDecision::Unauthorized);
}

#[test]
fn invite_builder_defaults() {
    let builder = OrgInviteBuilder::new();
    assert_eq!(builder.user_email, "test@test.com");
    assert_eq!(builder.role, Roles::OrgMember);
    assert_eq!(builder.create_at, Some(1_467_969_011));
    assert!(builder.security_token.is_some());
    assert!(builder.organization_id.is_none() && builder.invitee_id.is_none());
    let invite = builder.finish(100, 200);
    assert_eq!(invite.organization_id, 100);
    assert_eq!(invite.inviter_id, 200);
    assert_eq!(invite.user_email, "test@test.com");
    assert_eq!(invite.user_id, None);
    assert_eq!(invite.roles, vec![Roles::OrgMember]);
    assert_eq!(invite.event_ids, Some(vec![]));
}

#[test]
fn invite_builder_takes_what_it_is_given() {
    let builder = OrgInviteBuilder::new()
        .with_org(1)
        .with_role(Roles::Promoter)
        .with_event_ids(vec![7, 8])
        .with_invitee(2)
        .with_inviter(3)
        .with_email(&"fan@test.com".to_string())
        .link_to_user(4)
        .with_security_token(None);
    assert_eq!(builder.inviter_id, Some(3));
    assert_eq!(builder.security_token, None);
    let invite = builder.finish(100, 200);
    assert_eq!(invite.organization_id, 1);
    assert_eq!(invite.inviter_id, 2);
    assert_eq!(invite.user_email, "fan@test.com");
    assert_eq!(invite.user_id, Some(4));
    assert_eq!(invite.roles, vec![Roles::Promoter]);
    assert_eq!(invite.event_ids, Some(vec![7, 8]));
}

// ---- what comes from outside ----

#[test]
fn security_tokens_are_random_identifiers_of_version_4() {
    let a = new_security_token();
    let b = new_security_token();
    assert_ne!(a, b);
    for token in [a, b] {
        assert_eq!((token >> 76) & 0xF, 4);
        assert_eq!((token >> 62) & 0x3, 2);
    }
}

#[test]
fn civil_dates_are_counted_in_seconds() {
    assert_eq!(seconds_of(1970, 1, 1, 0, 0, 0), Some(0));
    assert_eq!(seconds_of(2016, 7, 8, 9, 10, 11), Some(1_467_969_011));
    assert_eq!(seconds_of(1969, 12, 31, 23, 59, 59), Some(-1));
    assert_eq!(seconds_of(2015, 2, 29, 0, 0, 0), None);
    assert_eq!(seconds_of(2016, 2, 29, 0, 0, 0), Some(1_456_704_000));
    assert_eq!(seconds_of(2016, 7, 8, 24, 0, 0), None);
    assert_eq!(seconds_of(2016, 13, 1, 0, 0, 0), None);
}

// ---- artists of an event ----

#[test]
fn bill_is_shown_in_the_order_given() {
    let first = EventArtist {
        id: 1,
        event_id: 10,
        artist_id: 20,
        rank: 0,
        set_time: Some(1_500_000_000),
        created_at: 1,
        updated_at: 2,
        importance: 0,
        stage_id: None,
    };
    let second = EventArtist { id: 2, artist_id: 21, rank: 1, importance: 1, stage_id: Some(5), ..first };
    let shown = EventArtist::find_all_from_event(vec![
        (first, "Headliner".to_string()),
        (second, "Support".to_string()),
    ]);
    assert_eq!(
        shown,
        vec![
            DisplayEventArtist {
                event_id: 10,
                artist: "Headliner".to_string(),
                rank: 0,
                set_time: Some(1_500_000_000),
                importance: 0,
                stage_id: None,
            },
            DisplayEventArtist {
                event_id: 10,
                artist: "Support".to_string(),
                rank: 1,
                set_time: Some(1_500_000_000),
                importance: 1,
                stage_id: Some(5),
            },
        ]
    );
    assert!(EventArtist::find_all_from_event(Vec::<(EventArtist, String)>::new()).is_empty());
    let new_entry = EventArtist::create(10, 20, 3, None, 1, Some(5));
    assert_eq!((new_entry.event_id, new_entry.artist_id, new_entry.rank), (10, 20, 3));
    assert_eq!((new_entry.set_time, new_entry.importance, new_entry.stage_id), (None, 1, Some(5)));
}
