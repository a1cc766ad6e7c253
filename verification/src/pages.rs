//! The login check, kept as a session flag where the boundary layer
//! keeps a private cookie, and the redirect decisions of the page
//! handlers that carry no template of their own.

use vstd::prelude::*;

verus! {

/// The login form body.
#[derive(Debug)]
pub struct LoginForm {
    pub password: String,
}

/// The admin cookie of one browsing session.
#[derive(Debug)]
pub struct Session {
    pub admin: bool,
}

/// The password that grants admin access.
pub open spec fn admin_password() -> Seq<char> {
    "42"@
}

/// Handles a login submission: the correct password grants the admin
/// cookie and redirects to the admin area; a wrong one leaves the
/// session unchanged and redirects back to the login page.
pub fn login(session: &mut Session, login_form: &LoginForm) -> (r: String)
    ensures
        login_form.password@ == admin_password() ==> final(session).admin && r@ == "/admin"@,
        login_form.password@ != admin_password() ==> *final(session) == *old(session) && r@
            == "/admin/login"@,
{
    let expected = String::from_str("42");
    if login_form.password.eq(&expected) {
        session.admin = true;
        String::from_str("/admin")
    } else {
        String::from_str("/admin/login")
    }
}

/// Logs out: drops the admin cookie and redirects to the login page.
pub fn logout(session: &mut Session) -> (r: String)
    ensures
        !final(session).admin,
        r@ == "/admin/login"@,
{
    session.admin = false;
    String::from_str("/admin/login")
}

/// The unauthorized catcher's decision: back to the login page.
pub fn unauthorized() -> (r: String)
    ensures
        r@ == "/admin/login"@,
{
    String::from_str("/admin/login")
}

} // verus!
