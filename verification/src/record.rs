//! Records: one address and the hostname that resolves to it.
use crate::compact::chars_of;
use compact_str::CompactString;
use vstd::prelude::*;

verus! {

/// One name-to-address mapping.
#[derive(Clone, Debug, PartialEq, Eq)]
pub struct Record {
    pub address: CompactString,
    pub hostname: CompactString,
}

/// A `Record` as text.
pub struct RecordView {
    pub address: Seq<char>,
    pub hostname: Seq<char>,
}

impl DeepView for Record {
    type V = RecordView;

    open spec fn deep_view(&self) -> RecordView {
        RecordView { address: chars_of(self.address), hostname: chars_of(self.hostname) }
    }
}

impl View for Record {
    type V = RecordView;

    open spec fn view(&self) -> RecordView {
        self.deep_view()
    }
}

} // verus!
