use vstd::prelude::*;

pub mod avatar;
pub mod bus;
pub mod chat;
pub mod codec;
pub mod grammar;
pub mod laws;
pub mod roundtrip;
pub mod scan;
pub mod session;
pub mod text;

pub use chat::{Chat, Msg};
pub use codec::MsgTypes;

verus! {

/// The user logged in on this page.
pub struct UserInner {
    pub username: String,
}

impl UserInner {
    pub fn new(username: String) -> (r: UserInner)
        ensures
            r.username == username,
    {
        UserInner { username }
    }
}

/// The pages of the application.
#[derive(PartialEq, Eq, Structural, Clone, Copy, Debug)]
pub enum Route {
    Login,
    Chat,
    About,
    NotFound,
}

pub open spec fn route_path(r: Route) -> Seq<char> {
    match r {
        Route::Login => "/"@,
        Route::Chat => "/chat"@,
        Route::About => "/about"@,
        Route::NotFound => "/404"@,
    }
}

impl Route {
    /// The path of this page.
    pub fn path(&self) -> (r: String)
        ensures
            r@ == route_path(*self),
    {
        match self {
            Route::Login => "/".to_owned(),
            Route::Chat => "/chat".to_owned(),
            Route::About => "/about".to_owned(),
            Route::NotFound => "/404".to_owned(),
        }
    }

    /// The page at `path`; a path of no page gives the not-found page.
    pub fn recognize(path: &str) -> (r: Route)
        ensures
            path@ == route_path(Route::Login) ==> r == Route::Login,
            path@ == route_path(Route::Chat) ==> r == Route::Chat,
            path@ == route_path(Route::About) ==> r == Route::About,
            path@ != route_path(Route::Login) && path@ != route_path(Route::Chat) && path@
                != route_path(Route::About) ==> r == Route::NotFound,
    {
        let p = text::to_chars(path);
        proof {
            reveal_strlit("/");
            reveal_strlit("/chat");
            reveal_strlit("/about");
            assert(route_path(Route::Login).len() == 1);
            assert(route_path(Route::Chat).len() == 5);
            assert(route_path(Route::About).len() == 6);
        }
        if text::same_chars(&p, &text::to_chars("/")) {
            Route::Login
        } else if text::same_chars(&p, &text::to_chars("/chat")) {
            Route::Chat
        } else if text::same_chars(&p, &text::to_chars("/about")) {
            Route::About
        } else {
            Route::NotFound
        }
    }
}

} // verus!
