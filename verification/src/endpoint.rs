//! Where the daemon is reached: its base URL and the URLs of its endpoints.

use crate::text::{
    begins_with, chars_of, leading_count, strip_leading, strip_trailing, trailing_count,
    CharClass,
};
use vstd::prelude::*;
use vstd::string::StrSliceExecFns;
use vstd::string::StringExecFns;

verus! {

/// Seconds that a request may take where no other limit is set for it.
pub const REQUEST_TIMEOUT_SECS: u64 = 10;

/// The path of the endpoint that tells the daemon's version; it serves as
/// the probe of whether the daemon is up.
pub const VERSION_PATH: &'static str = "/api/version";

/// The path of the endpoint that lists the installed models.
pub const TAGS_PATH: &'static str = "/api/tags";

/// The path of the endpoint that lists the loaded models.
pub const PROCESSES_PATH: &'static str = "/api/ps";

/// What a host setting holds, if it is set.
pub open spec fn host_view(host: Option<&str>) -> Option<Seq<char>> {
    match host {
        Some(h) => Some(h@),
        None => None,
    }
}

/// The host that is used: the one given on the command line, else the one
/// from the environment, else the daemon's default on this machine.
pub open spec fn chosen_host(arg_host: Option<Seq<char>>, env_host: Option<Seq<char>>) -> Seq<char> {
    match arg_host {
        Some(h) => h,
        None => match env_host {
            Some(h) => h,
            None => "127.0.0.1:11434"@,
        },
    }
}

/// The host with a scheme in front: its own where it has one, else `http`.
pub open spec fn with_scheme(host: Seq<char>) -> Seq<char> {
    if "http://"@.is_prefix_of(host) || "https://"@.is_prefix_of(host) {
        host
    } else {
        "http://"@ + host
    }
}

/// The URL of an endpoint: the base without slashes at its end, one slash,
/// and the endpoint's path without slashes at its start.
pub open spec fn url_of(base: Seq<char>, tail: Seq<char>) -> Seq<char> {
    strip_trailing(base, '/') + "/"@ + strip_leading(tail, '/')
}

/// Settles the daemon's base URL from the host given on the command line
/// and the host set in the environment.
pub fn pick_base_url(arg_host: Option<&str>, env_host: Option<&str>) -> (r: String)
    ensures
        r@ == with_scheme(chosen_host(host_view(arg_host), host_view(env_host))),
{
    let host: &str = match arg_host {
        Some(h) => h,
        None => match env_host {
            Some(h) => h,
            None => "127.0.0.1:11434",
        },
    };
    let v = chars_of(host);
    let plain = chars_of("http://");
    let secure = chars_of("https://");
    if begins_with(&v, &plain) || begins_with(&v, &secure) {
        String::from_str(host)
    } else {
        let mut r = String::from_str("http://");
        r.append(host);
        r
    }
}

/// Puts the URL of an endpoint together from the base URL and the
/// endpoint's path.
pub fn api_url(base: &str, tail: &str) -> (r: String)
    ensures
        r@ == url_of(base@, tail@),
{
    let vb = chars_of(base);
    let n = vb.len();
    let t = trailing_count(&vb, 0, n, CharClass::Is('/'));
    let vt = chars_of(tail);
    let m = vt.len();
    let l = leading_count(&vt, 0, m, CharClass::Is('/'));
    proof {
        assert(vb@.subrange(0, n as int) =~= vb@);
        assert(vt@.subrange(0, m as int) =~= vt@);
        assert(base@.subrange(0, n - t) =~= strip_trailing(base@, '/'));
        assert(tail@.subrange(l as int, m as int) =~= strip_leading(tail@, '/'));
    }
    let mut r = String::from_str(base.substring_char(0, n - t));
    r.append("/");
    r.append(tail.substring_char(l, m));
    r
}

} // verus!
