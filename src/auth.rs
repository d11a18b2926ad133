use vstd::prelude::*;

use crate::error::ServiceError;
use crate::text::same_text;

verus! {

/// Whether `credential` is exactly the admin token `token`.
pub open spec fn credential_accepted(token: Seq<char>, credential: Option<&str>) -> bool {
    credential matches Some(c) && c@ == token
}

/// The guard of the admin operations: a single shared secret, fixed when
/// the process starts.
pub struct AdminAuth {
    admin_token: String,
}

impl AdminAuth {
    /// The secret this guard accepts.
    pub closed spec fn token(&self) -> Seq<char> {
        self.admin_token@
    }

    /// A guard that accepts exactly `admin_token`.
    pub fn new(admin_token: String) -> (r: AdminAuth)
        ensures
            r.token() == admin_token@,
    {
        AdminAuth { admin_token }
    }

    /// Lets a request through only when it carries exactly the admin token;
    /// `Unauthorized` otherwise, also when it carries none.
    pub fn authorize(&self, credential: Option<&str>) -> (r: Result<(), ServiceError>)
        ensures
            r is Ok <==> credential_accepted(self.token(), credential),
            r matches Err(e) ==> e == ServiceError::Unauthorized,
    {
        match credential {
            Some(c) => if same_text(c, self.admin_token.as_str()) {
                Ok(())
            } else {
                Err(ServiceError::Unauthorized)
            },
            None => Err(ServiceError::Unauthorized),
        }
    }

    /// Puts `service` behind this guard.
    pub fn new_transform<S>(&self, service: S) -> (r: AdminAuthMiddleware<S>)
        ensures
            r.token() == self.token(),
            r.inner() == service,
    {
        AdminAuthMiddleware { service, guard: AdminAuth { admin_token: self.admin_token.clone() } }
    }
}

/// A service that can be reached only through the admin guard.
pub struct AdminAuthMiddleware<S> {
    service: S,
    guard: AdminAuth,
}

impl<S> AdminAuthMiddleware<S> {
    /// The secret the guard accepts.
    pub closed spec fn token(&self) -> Seq<char> {
        self.guard.token()
    }

    /// The guarded service.
    pub closed spec fn inner(&self) -> S {
        self.service
    }

    /// The guarded service, for a request that carries exactly the admin
    /// token; `Unauthorized`, with the service never reached, otherwise.
    pub fn call(&self, credential: Option<&str>) -> (r: Result<&S, ServiceError>)
        ensures
            r is Ok <==> credential_accepted(self.token(), credential),
            r matches Ok(s) ==> *s == self.inner(),
            r matches Err(e) ==> e == ServiceError::Unauthorized,
    {
        match self.guard.authorize(credential) {
            Ok(()) => Ok(&self.service),
            Err(e) => Err(e),
        }
    }

    /// The guarded service, to change it, for a request that carries exactly
    /// the admin token; `Unauthorized`, with nothing changed, otherwise.
    pub fn call_mut(&mut self, credential: Option<&str>) -> (r: Result<&mut S, ServiceError>)
        ensures
            r is Ok <==> credential_accepted(old(self).token(), credential),
            r matches Err(e) ==> e == ServiceError::Unauthorized,
            r is Err ==> *final(self) == *old(self),
            r matches Ok(s) ==> *s == old(self).inner() && final(self).inner() == *final(s),
            final(self).token() == old(self).token(),
    {
        match self.guard.authorize(credential) {
            Ok(()) => Ok(&mut self.service),
            Err(e) => Err(e),
        }
    }
}

} // verus!
