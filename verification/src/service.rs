//! Service identification: a best guess at what listens on a port, from the
//! banner it sent, if any, and from the port number.

use crate::text::{chars_of, contains, contains_run, has_prefix, starts_with};
use vstd::prelude::*;

verus! {

/// The service that convention puts on `port`, for the few ports this library
/// knows.
pub open spec fn well_known(port: u16) -> Option<Seq<char>> {
    if port == 22 {
        Some("SSH"@)
    } else if port == 80 {
        Some("HTTP"@)
    } else if port == 443 {
        Some("HTTPS"@)
    } else if port == 21 {
        Some("FTP"@)
    } else if port == 25 {
        Some("SMTP"@)
    } else if port == 3306 {
        Some("MySQL"@)
    } else if port == 5432 {
        Some("PostgreSQL"@)
    } else if port == 3389 {
        Some("RDP"@)
    } else if port == 5900 {
        Some("VNC"@)
    } else {
        None
    }
}

/// The service that a banner gives away, if it does: what the peer said
/// counts before what its port number suggests.
pub open spec fn banner_hint(banner: Seq<char>) -> Option<Seq<char>> {
    if contains_run(banner, "SSH-"@) {
        Some("SSH"@)
    } else if contains_run(banner, "HTTP/"@) || contains_run(banner, "Server:"@) {
        Some("HTTP"@)
    } else if starts_with(banner, "220 "@) {
        Some("SMTP/FTP"@)
    } else {
        None
    }
}

/// The label for a port and the banner read from it, if any: the banner's
/// hint where it has one, else the well-known service of the port, else
/// nothing.
pub open spec fn classify(port: u16, banner: Option<Seq<char>>) -> Option<Seq<char>> {
    match banner {
        Some(b) => match banner_hint(b) {
            Some(label) => Some(label),
            None => well_known(port),
        },
        None => well_known(port),
    }
}

/// The characters of an optional text.
pub open spec fn text_of(s: Option<&str>) -> Option<Seq<char>> {
    match s {
        Some(s) => Some(s@),
        None => None,
    }
}

/// The characters of an optional string.
pub open spec fn string_of(s: Option<String>) -> Option<Seq<char>> {
    match s {
        Some(s) => Some(s@),
        None => None,
    }
}

/// A banner never changes the label to nothing: where the port alone has a
/// label, the port with any banner has one too.
pub proof fn lemma_banner_keeps_label(port: u16, banner: Seq<char>)
    ensures
        classify(port, None) is Some ==> classify(port, Some(banner)) is Some,
        banner_hint(banner) is Some ==> classify(port, Some(banner)) == banner_hint(banner),
        banner_hint(banner) is None ==> classify(port, Some(banner)) == classify(port, None),
{
}

/// The well-known service of `port`.
pub fn lookup_port(port: u16) -> (r: Option<&'static str>)
    ensures
        text_of(r) == well_known(port),
{
    match port {
        22 => Some("SSH"),
        80 => Some("HTTP"),
        443 => Some("HTTPS"),
        21 => Some("FTP"),
        25 => Some("SMTP"),
        3306 => Some("MySQL"),
        5432 => Some("PostgreSQL"),
        3389 => Some("RDP"),
        5900 => Some("VNC"),
        _ => None,
    }
}

/// The service that `banner` gives away, if it does.
pub fn inspect_banner(banner: &str) -> (r: Option<&'static str>)
    ensures
        text_of(r) == banner_hint(banner@),
{
    let chars = chars_of(banner);
    let ssh = chars_of("SSH-");
    let http = chars_of("HTTP/");
    let server = chars_of("Server:");
    let greeting = chars_of("220 ");
    if contains(chars.as_slice(), ssh.as_slice()) {
        Some("SSH")
    } else if contains(chars.as_slice(), http.as_slice()) || contains(
        chars.as_slice(),
        server.as_slice(),
    ) {
        Some("HTTP")
    } else if has_prefix(chars.as_slice(), greeting.as_slice()) {
        Some("SMTP/FTP")
    } else {
        None
    }
}

/// The best guess at the service on `port`, given the banner read from it, if
/// any.
pub fn detect_service(port: u16, banner: Option<&str>) -> (r: Option<String>)
    ensures
        string_of(r) == classify(port, text_of(banner)),
{
    let hint = match banner {
        Some(b) => inspect_banner(b),
        None => None,
    };
    let label = match hint {
        Some(label) => Some(label),
        None => lookup_port(port),
    };
    match label {
        Some(label) => Some(label.to_owned()),
        None => None,
    }
}

} // verus!
