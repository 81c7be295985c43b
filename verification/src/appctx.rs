use vstd::prelude::*;

verus! {

/// The request context resolved from the authentication token: who is asking.
#[derive(Clone, Copy, Debug, PartialEq, Eq, Structural)]
pub struct AppCtx {
    user_id: u64,
}

impl AppCtx {
    /// The user on whose behalf the request runs.
    pub closed spec fn spec_user_id(&self) -> u64 {
        self.user_id
    }

    /// A context for the given user.
    pub fn new(user_id: u64) -> (ctx: Self)
        ensures
            ctx.spec_user_id() == user_id,
    {
        Self { user_id }
    }

    /// The user of this context.
    pub fn user_id(&self) -> (id: u64)
        ensures
            id == self.spec_user_id(),
    {
        self.user_id
    }
}

} // verus!
