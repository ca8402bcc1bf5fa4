//! The text of a response: one line per record, then a blank line.
use crate::record::{Record, RecordView};
use vstd::prelude::*;
use vstd::string::*;

verus! {

/// The two line formats that are served.
#[derive(Clone, Copy, Debug, PartialEq, Eq)]
pub enum LineFormat {
    /// `<address> <hostname>`, as in a hosts file.
    Hosts,
    /// `local-data: "<hostname> 60 IN A <address>"`, as `unbound` reads it.
    Unbound,
}

/// The line that stands for `record` in the given format, with its line feed.
pub open spec fn line(record: RecordView, format: LineFormat) -> Seq<char> {
    match format {
        LineFormat::Hosts => record.address + " "@ + record.hostname + "\n"@,
        LineFormat::Unbound => "local-data: \""@ + record.hostname + " 60 IN A "@ + record.address
            + "\"\n"@,
    }
}

/// Renders one record as a line.
pub fn render_line(record: &Record, format: LineFormat) -> (text: String)
    ensures
        text@ == line(record@, format),
{
    match format {
        LineFormat::Hosts => {
            let mut text = String::from_str(record.address.as_str());
            text.append(" ");
            text.append(record.hostname.as_str());
            text.append("\n");
            text
        },
        LineFormat::Unbound => {
            let mut text = String::from_str("local-data: \"");
            text.append(record.hostname.as_str());
            text.append(" 60 IN A ");
            text.append(record.address.as_str());
            text.append("\"\n");
            text
        },
    }
}

/// The blank line that ends every response.
pub fn render_end() -> (text: String)
    ensures
        text@ == "\n"@,
{
    String::from_str("\n")
}

} // verus!
