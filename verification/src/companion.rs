//! The companion player's remote-control adapter: a minimal plain-text
//! line protocol with `status`, `play` and `pause` commands. The status
//! reply carries a parenthesized state token; the playing token marks
//! active playback.
use crate::strutil::contains_chars;
use crate::strutil::spec_contains;
use crate::strutil::str_to_chars;
use vstd::prelude::*;

verus! {

/// The status query line.
pub fn companion_status_payload() -> (r: String)
    ensures
        r@ == "status\n"@,
{
    String::from_str("status\n")
}

/// The command setting playback: `play` to start it, `pause` to stop.
pub fn companion_toggle_payload(to_playing: bool) -> (r: String)
    ensures
        r@ == if to_playing {
            "play\n"@
        } else {
            "pause\n"@
        },
{
    if to_playing {
        String::from_str("play\n")
    } else {
        String::from_str("pause\n")
    }
}

/// The password line sent when the connection banner prompts for one.
pub fn companion_password_payload(password: &str) -> (r: String)
    ensures
        r@ == password@ + "\n"@,
{
    let mut out = String::from_str(password);
    out.append("\n");
    out
}

/// Whether the connection banner asks for a password line.
pub fn companion_prompts_password(banner: &str) -> (r: bool)
    ensures
        r == spec_contains(banner@, "Password"@),
{
    let chars = str_to_chars(banner);
    contains_chars(&chars, "Password")
}

/// Whether a status reply reports active playback: it does exactly when
/// it holds the parenthesized playing token.
pub fn companion_is_playing(reply: &str) -> (r: bool)
    ensures
        r == spec_contains(reply@, "( state playing )"@),
{
    let chars = str_to_chars(reply);
    contains_chars(&chars, "( state playing )")
}

} // verus!
