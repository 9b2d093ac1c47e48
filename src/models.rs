use vstd::prelude::*;

verus! {

/// The identity of an authenticated user.
#[derive(Clone, Copy, Debug, PartialEq, Eq, Structural)]
pub struct InnerAuthUser {
    pub id: i64,
}

/// The user behind a request: `None` when it carries no valid credential.
#[derive(Clone, Copy, Debug, PartialEq, Eq, Structural)]
pub struct AuthUser(pub Option<InnerAuthUser>);

/// The role of an account.
#[derive(Clone, Copy, Debug, PartialEq, Eq, Structural)]
pub enum AccountPermission {
    User,
    Moderator,
    Administrator,
}

/// The role stored under `value`: 1 and 2 for the staff roles, any other
/// value for a plain user.
pub open spec fn permission_of(value: i32) -> AccountPermission {
    if value == 1 {
        AccountPermission::Moderator
    } else if value == 2 {
        AccountPermission::Administrator
    } else {
        AccountPermission::User
    }
}

impl AccountPermission {
    /// The role stored under `value`.
    pub fn from_code(value: i32) -> (r: AccountPermission)
        ensures
            r == permission_of(value),
    {
        if value == 1 {
            AccountPermission::Moderator
        } else if value == 2 {
            AccountPermission::Administrator
        } else {
            AccountPermission::User
        }
    }

    /// The number under which the role is stored.
    pub fn code(&self) -> (r: i32)
        ensures
            permission_of(r) == *self,
    {
        match self {
            AccountPermission::User => 0,
            AccountPermission::Moderator => 1,
            AccountPermission::Administrator => 2,
        }
    }
}

impl From<i32> for AccountPermission {
    fn from(value: i32) -> (r: AccountPermission) {
        AccountPermission::from_code(value)
    }
}

impl vstd::std_specs::convert::FromSpecImpl<i32> for AccountPermission {
    open spec fn obeys_from_spec() -> bool {
        true
    }

    open spec fn from_spec(v: i32) -> AccountPermission {
        permission_of(v)
    }
}

/// The author of a post as shown to other users.
pub struct PublicPostAuthor {
    pub id: i64,
    pub username: String,
    pub permission: AccountPermission,
}

/// The author of a post as read from the store.
pub struct Author {
    pub id: i64,
    pub username: String,
    pub permission: i64,
}

/// A row count.
pub struct Count {
    pub total: i64,
}

/// Credentials of a login request.
pub struct LoginUser {
    pub username_or_email: String,
    pub password: String,
}

/// The body of a request publishing a post.
pub struct NewPost {
    pub title: String,
    pub description: String,
    pub content: String,
}

/// The body of a registration request.
pub struct NewAccount {
    pub username: String,
    pub email: String,
    pub password: String,
    pub birthdate: i64,
    pub dark_mode: Option<bool>,
    pub biography: Option<String>,
    pub is_male: Option<bool>,
}

/// The data of a registration, as checked before an account is made.
pub struct RegisterUser {
    pub username: String,
    pub email: String,
    pub password: String,
    pub birthdate: i64,
    pub is_male: Option<bool>,
}

/// A message published to a stream of server-sent events.
pub struct Message {
    pub author: i64,
    pub content: String,
}

/// A named server-sent event.
pub struct SseEvent {
    pub name: String,
    pub content: String,
}

/// Paging of a listing.
pub struct PaginationParams {
    pub offset: Option<i64>,
    pub limit: Option<i64>,
}

/// Posts shown when a listing names no limit, or a negative one.
pub const DEFAULT_LIMIT: i64 = 10;

/// The limit and offset of a listing: a missing or negative limit means
/// the default one, a missing or negative offset means 0, and a zero limit
/// means an empty listing (`None`).
pub open spec fn page_of(limit: Option<i64>, offset: Option<i64>) -> Option<(i64, i64)> {
    let l = match limit {
        Some(l) => l,
        None => DEFAULT_LIMIT,
    };
    let o = match offset {
        Some(o) => o,
        None => 0,
    };
    if l == 0 {
        None
    } else {
        Some((if l < 0 { DEFAULT_LIMIT } else { l }, if o < 0 { 0 } else { o }))
    }
}

impl PaginationParams {
    /// The limit and offset to query with; `None` for an empty listing.
    pub fn limit_and_offset(&self) -> (r: Option<(i64, i64)>)
        ensures
            r == page_of(self.limit, self.offset),
    {
        let mut limit = match self.limit {
            Some(l) => l,
            None => DEFAULT_LIMIT,
        };
        if limit == 0 {
            return None;
        }
        if limit < 0 {
            limit = DEFAULT_LIMIT;
        }
        let mut offset = match self.offset {
            Some(o) => o,
            None => 0,
        };
        if offset < 0 {
            offset = 0;
        }
        Some((limit, offset))
    }
}

/// The identity and role of a user.
pub struct UserInfos {
    pub id: i64,
    pub permission: usize,
}

/// A row holding an identifier.
pub struct Record {
    pub id: i64,
}

} // verus!
