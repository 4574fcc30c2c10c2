//! The orders in which the report can list connections, and their labels.
use vstd::prelude::*;

verus! {

/// Language of the labels.
#[derive(Clone, Copy, Debug, PartialEq, Eq, Hash, Structural)]
pub enum Language {
    EN,
    IT,
}

/// The kinds of relevant connections that the report can show first.
#[derive(Clone, Copy, Debug, PartialEq, Eq, Hash, Structural)]
pub enum ReportSortType {
    MostRecent,
    MostBytes,
    MostPackets,
}

/// The label of each order in each language.
pub open spec fn spec_label(sort: ReportSortType, language: Language) -> Seq<char> {
    match (sort, language) {
        (ReportSortType::MostRecent, Language::EN) => "most recent"@,
        (ReportSortType::MostRecent, Language::IT) => "più recenti"@,
        (ReportSortType::MostBytes, Language::EN) => "most bytes"@,
        (ReportSortType::MostBytes, Language::IT) => "più byte"@,
        (ReportSortType::MostPackets, Language::EN) => "most packets"@,
        (ReportSortType::MostPackets, Language::IT) => "più pacchetti"@,
    }
}

impl ReportSortType {
    /// The labels of all orders, in the order of the variants.
    pub fn all_strings(language: Language) -> (r: Vec<&'static str>)
        ensures
            r@.len() == 3,
            r@[0]@ == spec_label(ReportSortType::MostRecent, language),
            r@[1]@ == spec_label(ReportSortType::MostBytes, language),
            r@[2]@ == spec_label(ReportSortType::MostPackets, language),
    {
        vec![
            ReportSortType::MostRecent.get_picklist_label(language),
            ReportSortType::MostBytes.get_picklist_label(language),
            ReportSortType::MostPackets.get_picklist_label(language),
        ]
    }

    /// The label of this order.
    pub fn get_picklist_label(self, language: Language) -> (r: &'static str)
        ensures
            r@ == spec_label(self, language),
    {
        match (self, language) {
            (ReportSortType::MostRecent, Language::EN) => "most recent",
            (ReportSortType::MostRecent, Language::IT) => "più recenti",
            (ReportSortType::MostBytes, Language::EN) => "most bytes",
            (ReportSortType::MostBytes, Language::IT) => "più byte",
            (ReportSortType::MostPackets, Language::EN) => "most packets",
            (ReportSortType::MostPackets, Language::IT) => "più pacchetti",
        }
    }
}

} // verus!
