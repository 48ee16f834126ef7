//! Who speaks to the code review server.
use vstd::prelude::*;

verus! {

/// What the credentials are.
pub struct AuthView {
    pub user: Seq<char>,
    pub password: Option<Seq<char>>,
}

/// The credentials for the code review server. The password may be missing
/// until it is needed.
#[derive(Debug)]
pub struct Auth {
    pub user: String,
    pub password: Option<String>,
}

impl View for Auth {
    type V = AuthView;

    open spec fn view(&self) -> AuthView {
        AuthView {
            user: self.user@,
            password: match self.password {
                Some(p) => Some(p@),
                None => None,
            },
        }
    }
}

impl Auth {
    /// Whether the password is still to be asked for.
    pub fn needs_password(&self) -> (b: bool)
        ensures
            b == (self@.password is None),
    {
        self.password.is_none()
    }

    /// The credentials with the password that the user typed, where none was
    /// known. A password that was known stays, and so does the lack of one
    /// where the user gave none.
    pub fn ask_password_if_none(self, answer: Option<String>) -> (r: Self)
        ensures
            r@.user == self@.user,
            r@.password == match self@.password {
                Some(p) => Some(p),
                None => match answer {
                    Some(a) => Some(a@),
                    None => None,
                },
            },
    {
        let mut r = self;
        if r.password.is_none() {
            r.password = answer;
        }
        r
    }
}

} // verus!
