//! What the session database stores for one logged-in user.
use vstd::prelude::*;

verus! {

/// A stored login: the user, their display name and the session file.
#[derive(Debug)]
pub struct SessionData {
    pub user_id: i64,
    pub name: String,
    pub session_path: String,
}

impl Clone for SessionData {
    fn clone(&self) -> (r: SessionData)
        ensures
            r == *self,
    {
        SessionData {
            user_id: self.user_id,
            name: self.name.clone(),
            session_path: self.session_path.clone(),
        }
    }
}

} // verus!
