//! The routes from the kinds of domain action to the executors that carry
//! them out. The routes are set up once and handed to whoever dispatches.

use crate::enums::DomainActionTypes;
use crate::search::{
    first_match, is_first_match, lemma_first_match, lemma_first_match_is, lemma_first_match_none,
    lemma_first_match_push_hit, lemma_first_match_push_miss, lemma_first_match_update_hit,
    lemma_first_match_update_miss,
};
use vstd::prelude::*;

verus! {

/// The executors that there are.
#[derive(Clone, Copy, Debug, PartialEq, Eq, Structural)]
pub enum DomainActionExecutor {
    /// Sends the communication that the action describes.
    SendCommunication,
}

/// Why a router refuses.
#[derive(Debug)]
pub enum DomainActionError {
    Simple(String),
}

/// One route.
#[derive(Clone, Copy, Debug, PartialEq, Eq)]
pub struct Route {
    pub action_type: DomainActionTypes,
    pub executor: DomainActionExecutor,
}

#[derive(Debug)]
pub struct DomainActionRouter {
    pub routes: Vec<Route>,
}

pub open spec fn route_for(action_type: DomainActionTypes) -> spec_fn(Route) -> bool {
    |r: Route| r.action_type == action_type
}

/// The executor that the routes give for a kind of action.
pub open spec fn spec_executor_for(routes: Seq<Route>, action_type: DomainActionTypes) -> Option<
    DomainActionExecutor,
> {
    match first_match(routes, route_for(action_type)) {
        Some(i) => Some(routes[i].executor),
        None => None,
    }
}

/// The executor that carries out a kind of action.
pub open spec fn spec_find_executor(action_type: DomainActionTypes) -> DomainActionExecutor {
    match action_type {
        DomainActionTypes::Communication => DomainActionExecutor::SendCommunication,
    }
}

/// The executor that carries out a kind of action. Every kind has one.
pub fn find_executor(action_type: DomainActionTypes) -> (r: DomainActionExecutor)
    ensures
        r == spec_find_executor(action_type),
{
    match action_type {
        DomainActionTypes::Communication => DomainActionExecutor::SendCommunication,
    }
}

impl DomainActionRouter {
    /// A router without routes.
    pub fn new() -> (r: DomainActionRouter)
        ensures
            r.routes@.len() == 0,
            forall|t: DomainActionTypes| spec_executor_for(r.routes@, t) is None,
    {
        let r = DomainActionRouter { routes: Vec::new() };
        proof {
            assert forall|t: DomainActionTypes| spec_executor_for(r.routes@, t) is None by {
                lemma_first_match_none(r.routes@, route_for(t));
            }
        }
        r
    }

    fn position(&self, action_type: DomainActionTypes) -> (r: Option<usize>)
        ensures
            match r {
                Some(i) => first_match(self.routes@, route_for(action_type)) == Some(i as int) && i
                    < self.routes@.len(),
                None => first_match(self.routes@, route_for(action_type)) is None,
            },
    {
        let ghost p = route_for(action_type);
        let mut i: usize = 0;
        while i < self.routes.len()
            invariant
                0 <= i <= self.routes.len(),
                p == route_for(action_type),
                forall|j: int| 0 <= j < i ==> !p(#[trigger] self.routes@[j]),
            decreases self.routes.len() - i,
        {
            if self.routes[i].action_type == action_type {
                proof {
                    assert(is_first_match(self.routes@, p, i as int));
                    lemma_first_match_is(self.routes@, p, i as int);
                }
                return Some(i);
            }
            i += 1;
        }
        proof {
            lemma_first_match_none(self.routes@, p);
        }
        None
    }

    /// Routes a kind of action to an executor. The route is set in any
    /// case; where the kind had an executor before, that one gives way and
    /// the call reports it as an error.
    pub fn add_executor(&mut self, action_type: DomainActionTypes, executor: DomainActionExecutor)
        -> (r: Result<(), DomainActionError>)
        ensures
            r is Err <==> spec_executor_for(old(self).routes@, action_type) is Some,
            r matches Err(DomainActionError::Simple(message)) ==> message@
                == "Action type already has an executor"@,
            forall|t: DomainActionTypes|
                spec_executor_for(final(self).routes@, t) == if t == action_type {
                    Some(executor)
                } else {
                    spec_executor_for(old(self).routes@, t)
                },
    {
        let route = Route { action_type, executor };
        match self.position(action_type) {
            Some(i) => {
                proof {
                    lemma_first_match(self.routes@, route_for(action_type));
                    lemma_first_match_update_hit(self.routes@, route_for(action_type), i as int, route);
                    assert forall|t: DomainActionTypes| t != action_type implies spec_executor_for(
                        self.routes@.update(i as int, route),
                        t,
                    ) == spec_executor_for(self.routes@, t) by {
                        lemma_first_match(self.routes@, route_for(t));
                        lemma_first_match_update_miss(self.routes@, route_for(t), i as int, route);
                    }
                }
                self.routes.set(i, route);
                Err(DomainActionError::Simple("Action type already has an executor".to_owned()))
            },
            None => {
                proof {
                    lemma_first_match_push_hit(self.routes@, route_for(action_type), route);
                    assert forall|t: DomainActionTypes| t != action_type implies spec_executor_for(
                        self.routes@.push(route),
                        t,
                    ) == spec_executor_for(self.routes@, t) by {
                        lemma_first_match(self.routes@, route_for(t));
                        lemma_first_match_push_miss(self.routes@, route_for(t), route);
                    }
                }
                self.routes.push(route);
                Ok(())
            },
        }
    }

    /// The executor that a kind of action is routed to.
    pub fn get_executor_for(&self, action_type: DomainActionTypes) -> (r: Option<
        DomainActionExecutor,
    >)
        ensures
            r == spec_executor_for(self.routes@, action_type),
    {
        match self.position(action_type) {
            Some(i) => Some(self.routes[i].executor),
            None => None,
        }
    }

    /// Routes every kind of action to its executor. The router must not
    /// route any of them yet.
    pub fn set_up_executors(&mut self)
        requires
            spec_executor_for(old(self).routes@, DomainActionTypes::Communication) is None,
        ensures
            forall|t: DomainActionTypes|
                spec_executor_for(final(self).routes@, t) == Some(spec_find_executor(t)),
    {
        let _ = self.add_executor(
            DomainActionTypes::Communication,
            find_executor(DomainActionTypes::Communication),
        );
    }
}

} // verus!
