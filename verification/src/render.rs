//! What a result looks like in a listing: the word for its status, the text to
//! show for its service and banner, and whether it gets a line at all.

use crate::layout::{decimal, decimal_string, pad_left, pad_left_text};
use crate::outcome::PortStatus;
use vstd::prelude::*;
use vstd::string::{StrSliceExecFns, StringExecFns, StringSliceAdditionalSpecFns};

verus! {

/// The most characters of a banner that a listing shows.
pub const PREVIEW_CHARS: usize = 60;

/// The width of the column that holds the port number.
pub const PORT_WIDTH: usize = 5;

/// The line that a result gets in a listing.
#[derive(Clone, Copy, Debug, PartialEq, Eq, Structural)]
pub enum LineStyle {
    /// Port, status, service and banner.
    Full,
    /// Port and service only.
    Brief,
    /// No line.
    Hidden,
}

/// The word for a status.
pub open spec fn status_text(status: PortStatus) -> Seq<char> {
    match status {
        PortStatus::Open => "open"@,
        PortStatus::Closed => "closed"@,
        PortStatus::Filtered => "filtered"@,
    }
}

/// The text shown for an optional field: the field, or a dash where there is
/// none.
pub open spec fn or_dash_text(field: Option<Seq<char>>) -> Seq<char> {
    match field {
        Some(text) => text,
        None => "-"@,
    }
}

/// The text shown for a banner whose characters are `chars` and which takes
/// `bytes` bytes: its first `PREVIEW_CHARS` characters, followed by three dots
/// when it is longer than that many bytes.
pub open spec fn preview_text(chars: Seq<char>, bytes: nat) -> Seq<char> {
    let head = if chars.len() > PREVIEW_CHARS {
        chars.take(PREVIEW_CHARS as int)
    } else {
        chars
    };
    if bytes > PREVIEW_CHARS {
        head + "..."@
    } else {
        head
    }
}

/// The line that a result with the status `status` gets: a full one in a
/// verbose listing, else a brief one when the port is open and none when it is
/// not.
pub open spec fn line_style_for(status: PortStatus, verbose: bool) -> LineStyle {
    if verbose {
        LineStyle::Full
    } else if status == PortStatus::Open {
        LineStyle::Brief
    } else {
        LineStyle::Hidden
    }
}

/// The port number as it stands in its column: in decimal, flush right.
pub open spec fn port_column_text(port: u16) -> Seq<char> {
    pad_left_text(decimal(port as nat), PORT_WIDTH as nat)
}

/// A full line of a listing, from the texts of its four fields.
pub open spec fn full_line_text(
    port: Seq<char>,
    status: Seq<char>,
    service: Seq<char>,
    banner: Seq<char>,
) -> Seq<char> {
    port + " | "@ + status + " | Service: "@ + service + " | Banner: "@ + banner
}

/// A brief line of a listing, from the texts of its two fields.
pub open spec fn brief_line_text(port: Seq<char>, service: Seq<char>) -> Seq<char> {
    port + " open   "@ + service
}

/// The line of a listing in the given style, if the style has one.
pub open spec fn listing_line_text(
    style: LineStyle,
    port: Seq<char>,
    status: Seq<char>,
    service: Seq<char>,
    banner: Seq<char>,
) -> Option<Seq<char>> {
    match style {
        LineStyle::Full => Some(full_line_text(port, status, service, banner)),
        LineStyle::Brief => Some(brief_line_text(port, service)),
        LineStyle::Hidden => None,
    }
}

/// The word for a status.
pub fn status_label(status: PortStatus) -> (label: &'static str)
    ensures
        label@ == status_text(status),
{
    match status {
        PortStatus::Open => "open",
        PortStatus::Closed => "closed",
        PortStatus::Filtered => "filtered",
    }
}

/// The text to show for an optional field.
pub fn or_dash<'a>(field: Option<&'a str>) -> (text: &'a str)
    ensures
        text@ == or_dash_text(crate::service::text_of(field)),
{
    match field {
        Some(text) => text,
        None => "-",
    }
}

/// The text to show for a banner.
pub fn banner_preview(banner: Option<&str>) -> (text: String)
    ensures
        text@ == match banner {
            Some(b) => preview_text(b@, b.spec_bytes().len()),
            None => "-"@,
        },
{
    match banner {
        None => "-".to_owned(),
        Some(b) => {
            let count = b.unicode_len();
            let mut text = if count > PREVIEW_CHARS {
                b.substring_char(0, PREVIEW_CHARS).to_owned()
            } else {
                b.to_owned()
            };
            if b.as_bytes().len() > PREVIEW_CHARS {
                text.append("...");
            }
            text
        },
    }
}

/// The port number as it stands in its column.
pub fn port_column(port: u16) -> (text: String)
    ensures
        text@ == port_column_text(port),
{
    let digits = decimal_string(port as u128);
    pad_left(digits.as_str(), PORT_WIDTH)
}

/// Puts together the line of a listing in the given style from the texts of
/// its fields, each as it is to be shown. A brief line leaves status and
/// banner out; a hidden one is no line.
pub fn listing_line(style: LineStyle, port: &str, status: &str, service: &str, banner: &str) -> (line:
    Option<String>)
    ensures
        crate::service::string_of(line) == listing_line_text(
            style,
            port@,
            status@,
            service@,
            banner@,
        ),
{
    match style {
        LineStyle::Full => {
            let mut line = port.to_owned();
            line.append(" | ");
            line.append(status);
            line.append(" | Service: ");
            line.append(service);
            line.append(" | Banner: ");
            line.append(banner);
            Some(line)
        },
        LineStyle::Brief => {
            let mut line = port.to_owned();
            line.append(" open   ");
            line.append(service);
            Some(line)
        },
        LineStyle::Hidden => None,
    }
}

/// Whether a result with the status `status` is listed at all: always, unless
/// the listing is quiet, which shows open ports only.
pub fn is_listed(status: PortStatus, quiet: bool) -> (listed: bool)
    ensures
        listed == (!quiet || status == PortStatus::Open),
{
    !quiet || status == PortStatus::Open
}

/// The line that a result with the status `status` gets.
pub fn line_style(status: PortStatus, verbose: bool) -> (style: LineStyle)
    ensures
        style == line_style_for(status, verbose),
{
    if verbose {
        LineStyle::Full
    } else if status == PortStatus::Open {
        LineStyle::Brief
    } else {
        LineStyle::Hidden
    }
}

} // verus!
