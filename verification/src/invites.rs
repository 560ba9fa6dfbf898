//! Invitations to an organization: which scope an inviter needs, who may
//! accept, and the invitations that tests are built from.

use crate::clock::{civil_seconds, seconds_of};
use crate::enums::Roles;
use crate::tokens::{is_random_identifier, new_security_token};
use vstd::prelude::*;

verus! {

/// The path of an invitation that names a user.
#[derive(Clone, Copy, Debug, PartialEq, Eq)]
pub struct Info {
    pub token: u128,
    pub user_id: u128,
}

/// The query of a response to an invitation.
#[derive(Clone, Copy, Debug, PartialEq, Eq)]
pub struct InviteResponseQuery {
    pub security_token: u128,
}

/// The body of a request to invite somebody.
#[derive(Debug)]
pub struct NewOrgInviteRequest {
    pub user_email: String,
    pub roles: Vec<Roles>,
    pub event_ids: Option<Vec<u128>>,
}

/// What a user must be allowed to do in an organization to manage the
/// invitations to a role.
#[derive(Clone, Copy, Debug, PartialEq, Eq, Structural)]
pub enum Scopes {
    /// Administer the organization.
    OrgAdmin,
    /// Manage the administrators of the organization.
    OrgAdminUsers,
    /// Manage the users of the organization.
    OrgUsers,
}

/// Why an invitation is refused.
#[derive(Clone, Copy, Debug, PartialEq, Eq, Structural)]
pub enum InviteError {
    /// Nobody is invited to this role.
    RoleNotInvitable,
}

impl InviteError {
    /// The field that the failure is about.
    pub fn field(&self) -> (r: &'static str)
        ensures
            r@ == "role"@,
    {
        "role"
    }

    /// The failure in words.
    pub fn message(&self) -> (r: &'static str)
        ensures
            r@ == "Role must be either OrgOwner or OrgMember"@,
    {
        "Role must be either OrgOwner or OrgMember"
    }
}

/// The scope that goes with a role of an organization; none for a role
/// that is not one of an organization.
pub open spec fn spec_scope_for(role: Roles) -> Option<Scopes> {
    match role {
        Roles::OrgOwner => Some(Scopes::OrgAdmin),
        Roles::OrgAdmin => Some(Scopes::OrgAdminUsers),
        Roles::OrgMember => Some(Scopes::OrgUsers),
        Roles::DoorPerson => Some(Scopes::OrgUsers),
        Roles::OrgBoxOffice => Some(Scopes::OrgUsers),
        Roles::Promoter => Some(Scopes::OrgUsers),
        Roles::PromoterReadOnly => Some(Scopes::OrgUsers),
        Roles::Admin => None,
        Roles::User => None,
    }
}

/// The scope that a user needs to invite somebody to a role. A role that
/// is not one of an organization is refused.
pub fn scope_to_invite(role: Roles) -> (r: Result<Scopes, InviteError>)
    ensures
        match r {
            Ok(scope) => spec_scope_for(role) == Some(scope),
            Err(e) => spec_scope_for(role) is None && e == InviteError::RoleNotInvitable,
        },
{
    match role {
        Roles::OrgOwner => Ok(Scopes::OrgAdmin),
        Roles::OrgAdmin => Ok(Scopes::OrgAdminUsers),
        Roles::OrgMember => Ok(Scopes::OrgUsers),
        Roles::DoorPerson => Ok(Scopes::OrgUsers),
        Roles::OrgBoxOffice => Ok(Scopes::OrgUsers),
        Roles::Promoter => Ok(Scopes::OrgUsers),
        Roles::PromoterReadOnly => Ok(Scopes::OrgUsers),
        _ => Err(InviteError::RoleNotInvitable),
    }
}

/// The scope that a user needs to withdraw an invitation to a role. For a
/// role that is not one of an organization only an administrator of the
/// organization may.
pub fn scope_to_revoke(role: Roles) -> (r: Scopes)
    ensures
        r == match spec_scope_for(role) {
            Some(scope) => scope,
            None => Scopes::OrgAdmin,
        },
{
    match role {
        Roles::OrgOwner => Scopes::OrgAdmin,
        Roles::OrgAdmin => Scopes::OrgAdminUsers,
        Roles::OrgMember => Scopes::OrgUsers,
        Roles::DoorPerson => Scopes::OrgUsers,
        Roles::OrgBoxOffice => Scopes::OrgUsers,
        Roles::Promoter => Scopes::OrgUsers,
        Roles::PromoterReadOnly => Scopes::OrgUsers,
        _ => Scopes::OrgAdmin,
    }
}

/// Whom an invitation addresses: a known user by full name and id, anybody
/// else as a new user.
pub fn invite_recipient(user: Option<(u128, String)>) -> (r: (String, Option<u128>))
    ensures
        match user {
            Some((id, full_name)) => r.0 == full_name && r.1 == Some(id),
            None => r.0@ == "New user"@ && r.1 is None,
        },
{
    match user {
        Some((id, full_name)) => (full_name, Some(id)),
        None => ("New user".to_owned(), None),
    }
}

/// Whether a user may accept an invitation: the user that the invitation
/// names, or, where it names none, a user whose address is that of the
/// invitation.
pub open spec fn spec_valid_for_acceptance(
    invite_user_id: Option<u128>,
    invite_email: Seq<char>,
    user_id: u128,
    user_email: Option<Seq<char>>,
) -> bool {
    match invite_user_id {
        Some(id) => id == user_id,
        None => match user_email {
            Some(email) => invite_email == email,
            None => false,
        },
    }
}

/// Whether a user may accept an invitation.
pub fn valid_for_acceptance(
    invite_user_id: Option<u128>,
    invite_email: &String,
    user_id: u128,
    user_email: &Option<String>,
) -> (r: bool)
    ensures
        r == spec_valid_for_acceptance(
            invite_user_id,
            invite_email@,
            user_id,
            match *user_email {
                Some(email) => Some(email@),
                None => None,
            },
        ),
{
    match invite_user_id {
        Some(id) => id == user_id,
        None => match user_email {
            Some(email) => *invite_email == *email,
            None => false,
        },
    }
}

/// What a response to an invitation leads to.
#[derive(Clone, Copy, Debug, PartialEq, Eq, Structural)]
pub enum AcceptDecision {
    /// The invitation is accepted and the user joins the organization.
    Accept,
    /// The response is refused.
    Unauthorized,
}

/// Decides on a response to an invitation. Nobody accepts without being
/// logged in.
pub fn accept_decision(
    invite_user_id: Option<u128>,
    invite_email: &String,
    user: &Option<(u128, Option<String>)>,
) -> (r: AcceptDecision)
    ensures
        r == match *user {
            Some((id, email)) => if spec_valid_for_acceptance(
                invite_user_id,
                invite_email@,
                id,
                match email {
                    Some(e) => Some(e@),
                    None => None,
                },
            ) {
                AcceptDecision::Accept
            } else {
                AcceptDecision::Unauthorized
            },
            None => AcceptDecision::Unauthorized,
        },
{
    match user {
        Some((id, email)) => {
            if valid_for_acceptance(invite_user_id, invite_email, *id, email) {
                AcceptDecision::Accept
            } else {
                AcceptDecision::Unauthorized
            }
        },
        None => AcceptDecision::Unauthorized,
    }
}

/// An invitation that is yet to be stored.
#[derive(Debug)]
pub struct NewOrganizationInvite {
    pub organization_id: u128,
    pub inviter_id: u128,
    pub user_email: String,
    pub user_id: Option<u128>,
    pub roles: Vec<Roles>,
    pub event_ids: Option<Vec<u128>>,
}

/// Builds invitations for tests, with defaults for what a test leaves out.
#[derive(Debug)]
pub struct OrgInviteBuilder {
    pub organization_id: Option<u128>,
    pub invitee_id: Option<u128>,
    pub inviter_id: Option<u128>,
    pub user_email: String,
    pub create_at: Option<i64>,
    pub security_token: Option<u128>,
    pub user_id: Option<u128>,
    pub status_change_at: Option<i64>,
    pub accepted: Option<i16>,
    pub role: Roles,
    pub event_ids: Vec<u128>,
}

impl OrgInviteBuilder {
    /// A builder with the defaults: a member invited at `test@test.com` on
    /// 8 July 2016, 09:10:11, under a random security token.
    pub fn new() -> (r: OrgInviteBuilder)
        ensures
            r.organization_id is None,
            r.invitee_id is None,
            r.inviter_id is None,
            r.user_email@ == "test@test.com"@,
            r.create_at == civil_seconds(2016, 7, 8, 9, 10, 11),
            r.security_token matches Some(token) && is_random_identifier(token),
            r.user_id is None,
            r.status_change_at is None,
            r.accepted is None,
            r.role == Roles::OrgMember,
            r.event_ids@.len() == 0,
    {
        OrgInviteBuilder {
            organization_id: None,
            invitee_id: None,
            inviter_id: None,
            user_email: "test@test.com".to_owned(),
            create_at: seconds_of(2016, 7, 8, 9, 10, 11),
            security_token: Some(new_security_token()),
            user_id: None,
            status_change_at: None,
            role: Roles::OrgMember,
            accepted: None,
            event_ids: Vec::new(),
        }
    }

    pub fn with_org(self, organization_id: u128) -> (r: OrgInviteBuilder)
        ensures
            r == (OrgInviteBuilder { organization_id: Some(organization_id), ..self }),
    {
        let mut r = self;
        r.organization_id = Some(organization_id);
        r
    }

    pub fn with_role(self, role: Roles) -> (r: OrgInviteBuilder)
        ensures
            r == (OrgInviteBuilder { role, ..self }),
    {
        let mut r = self;
        r.role = role;
        r
    }

    pub fn with_event_ids(self, event_ids: Vec<u128>) -> (r: OrgInviteBuilder)
        ensures
            r == (OrgInviteBuilder { event_ids, ..self }),
    {
        let mut r = self;
        r.event_ids = event_ids;
        r
    }

    pub fn with_invitee(self, invitee_id: u128) -> (r: OrgInviteBuilder)
        ensures
            r == (OrgInviteBuilder { invitee_id: Some(invitee_id), ..self }),
    {
        let mut r = self;
        r.invitee_id = Some(invitee_id);
        r
    }

    pub fn with_inviter(self, inviter_id: u128) -> (r: OrgInviteBuilder)
        ensures
            r == (OrgInviteBuilder { inviter_id: Some(inviter_id), ..self }),
    {
        let mut r = self;
        r.inviter_id = Some(inviter_id);
        r
    }

    pub fn with_email(self, email: &String) -> (r: OrgInviteBuilder)
        ensures
            r == (OrgInviteBuilder { user_email: *email, ..self }),
    {
        let mut r = self;
        r.user_email = email.clone();
        r
    }

    pub fn link_to_user(self, user_id: u128) -> (r: OrgInviteBuilder)
        ensures
            r == (OrgInviteBuilder { user_id: Some(user_id), ..self }),
    {
        let mut r = self;
        r.user_id = Some(user_id);
        r
    }

    pub fn with_security_token(self, security_token: Option<u128>) -> (r: OrgInviteBuilder)
        ensures
            r == (OrgInviteBuilder { security_token, ..self }),
    {
        let mut r = self;
        r.security_token = security_token;
        r
    }

    /// The invitation that the builder stands for. The organization and
    /// the invitee that the test left out are the ones given here; the
    /// invitee stands as the inviter.
    pub fn finish(&self, organization_if_none: u128, invitee_if_none: u128) -> (r:
        NewOrganizationInvite)
        ensures
            r.organization_id == match self.organization_id {
                Some(id) => id,
                None => organization_if_none,
            },
            r.inviter_id == match self.invitee_id {
                Some(id) => id,
                None => invitee_if_none,
            },
            r.user_email == self.user_email,
            r.user_id == self.user_id,
            r.roles@ == seq![self.role],
            r.event_ids matches Some(ids) && ids@ == self.event_ids@,
    {
        let organization_id = match self.organization_id {
            Some(id) => id,
            None => organization_if_none,
        };
        let inviter_id = match self.invitee_id {
            Some(id) => id,
            None => invitee_if_none,
        };
        let mut roles: Vec<Roles> = Vec::new();
        roles.push(self.role);
        let event_ids = crate::vecs::copy_vec(&self.event_ids);
        assert(roles@ =~= seq![self.role]);
        NewOrganizationInvite {
            organization_id,
            inviter_id,
            user_email: self.user_email.clone(),
            user_id: self.user_id,
            roles,
            event_ids: Some(event_ids),
        }
    }
}

} // verus!
