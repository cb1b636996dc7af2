//! Plain request and response shapes of the command layer.

use vstd::prelude::*;

use crate::models::{opt_str_eqv, Client};

verus! {

/// Input for creating a client.
#[derive(Debug)]
pub struct CreateClientRequest {
    pub name: String,
    pub email: Option<String>,
    pub company: Option<String>,
}

/// The listing shape of a client.
#[derive(Debug)]
pub struct ClientResponse {
    pub id: String,
    pub name: String,
    pub email: Option<String>,
    pub company: Option<String>,
}

impl ClientResponse {
    /// The listing shape of a stored client.
    pub fn from_client(c: &Client) -> (r: ClientResponse)
        ensures
            r.id@ == c.id@,
            r.name@ == c.name@,
            opt_str_eqv(r.email, c.email),
            opt_str_eqv(r.company, c.company),
    {
        ClientResponse {
            id: c.id.clone(),
            name: c.name.clone(),
            email: crate::models::clone_opt_str(&c.email),
            company: crate::models::clone_opt_str(&c.company),
        }
    }
}

} // verus!
