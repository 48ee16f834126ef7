//! Users of the code review server: what to ask for, and what to write down of
//! the answer.
use crate::text::{chars_of, join, joined, pieces_of, string_of, trimmed_pieces, vec_views, views};
use vstd::prelude::*;

verus! {

/// What a user is.
pub struct UserView {
    pub name: Seq<char>,
    pub display_name: Seq<char>,
    pub email: Seq<char>,
}

/// A user of the code review server.
#[derive(Debug)]
pub struct User {
    pub name: String,
    pub display_name: String,
    pub email: String,
}

impl View for User {
    type V = UserView;

    open spec fn view(&self) -> UserView {
        UserView { name: self.name@, display_name: self.display_name@, email: self.email@ }
    }
}

impl Clone for User {
    fn clone(&self) -> (r: Self)
        ensures
            r@ == self@,
    {
        User {
            name: self.name.clone(),
            display_name: self.display_name.clone(),
            email: self.email.clone(),
        }
    }
}

/// The views of a sequence of users.
pub open spec fn user_views(v: Seq<User>) -> Seq<UserView> {
    v.map_values(|u: User| u@)
}

/// The line that is written for the users that were found: their names, each
/// followed by a semicolon, and a line feed. Without users it holds the
/// semicolon alone.
pub open spec fn names_line_of(users: Seq<UserView>) -> Seq<char> {
    joined(users.map_values(|u: UserView| u.name), seq![';']) + seq![';', '\n']
}

/// The filters that a query holds: the pieces between its semicolons, without
/// the white space around them, as far as anything is left of them.
pub fn query_filters(query: &str) -> (r: Vec<String>)
    ensures
        views(r@) == pieces_of(query@, ';'),
{
    trimmed_pieces(&chars_of(query), ';')
}

/// The line that is written for the users that were found.
pub fn names_line(users: &Vec<User>) -> (r: String)
    ensures
        r@ == names_line_of(user_views(users@)),
{
    let ghost all = user_views(users@);
    let ghost name_of = |u: UserView| u.name;
    let mut names: Vec<Vec<char>> = Vec::new();
    let mut i: usize = 0;
    while i < users.len()
        invariant
            i <= users.len(),
            all == user_views(users@),
            name_of == |u: UserView| u.name,
            vec_views(names@) == all.take(i as int).map_values(name_of),
        decreases users.len() - i,
    {
        let ghost before = names@;
        let name = chars_of(users[i].name.as_str());
        names.push(name);
        proof {
            assert(vec_views(names@) =~= vec_views(before).push(name@));
        }
        i += 1;
    }
    assert(all.take(users.len() as int) =~= all);
    let sep: Vec<char> = vec![';'];
    assert(sep@ =~= seq![';']);
    let mut out = join(&names, &sep);
    out.push(';');
    out.push('\n');
    string_of(&out)
}

} // verus!
