use vstd::prelude::*;

verus! {

/// The authenticated identity handed to protected handlers: the owning
/// user's row, resolved from the incoming session cookie.
#[derive(Debug)]
pub struct UserProfile {
    pub id: i32,
    pub user_id: u128,
    pub email: String,
    pub name: String,
    pub username: Option<String>,
    pub created_at: i64,
    pub updated_at: i64,
}

/// Mathematical image of a `UserProfile`.
#[verifier::ext_equal]
pub ghost struct UserProfileModel {
    pub id: int,
    pub user_id: int,
    pub email: Seq<char>,
    pub name: Seq<char>,
    pub username: Option<Seq<char>>,
    pub created_at: int,
    pub updated_at: int,
}

impl View for UserProfile {
    type V = UserProfileModel;

    open spec fn view(&self) -> UserProfileModel {
        UserProfileModel {
            id: self.id as int,
            user_id: self.user_id as int,
            email: self.email@,
            name: self.name@,
            username: match self.username {
                Some(u) => Some(u@),
                None => None,
            },
            created_at: self.created_at as int,
            updated_at: self.updated_at as int,
        }
    }
}

} // verus!
