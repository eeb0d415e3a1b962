//! The `I` record: the extension definition that describes the trailer
//! fields of the fix records elsewhere in the file.

use vstd::prelude::*;

use crate::records::extension::{
    encoded_line, extension_count, extension_line_error, extension_line_ok, extensions_of,
    ExtensionDefRecord,
};
use crate::util::parse_error::ParseError;

verus! {

/// An extension definition line under the `I` tag.
#[derive(Debug, PartialEq, Eq)]
pub struct IRecord<'a>(pub ExtensionDefRecord<'a>);

impl<'a> IRecord<'a> {
    /// Decode an `I` record.  The dispatcher-style tag check is the caller's
    /// contract; the definition body is checked here.
    pub fn parse(line: &'a str) -> (r: Result<IRecord<'a>, ParseError>)
        requires
            line@.len() > 0,
            line@[0] == 'I',
        ensures
            r is Ok <==> extension_line_ok(line@),
            r matches Ok(rec) ==> rec.0.num_extensions == extension_count(line@)
                && rec.0.entry_views() == extensions_of(line@) && rec.0.columns_fit(),
            r matches Err(e) ==> e == extension_line_error(line@),
    {
        match ExtensionDefRecord::parse(line) {
            Ok(rec) => Ok(IRecord(rec)),
            Err(e) => Err(e),
        }
    }

    /// Render the record back to its line form under the `I` tag.
    pub fn encode(&self) -> (out: String)
        requires
            self.0.columns_fit(),
        ensures
            out@ == encoded_line('I', self.0.num_extensions as int, self.0.entry_views()),
    {
        self.0.encode('I')
    }
}

} // verus!
