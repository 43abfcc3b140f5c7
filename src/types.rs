//! The data model: command-line settings, component records and the filter set.

use vstd::prelude::*;

verus! {

/// Settings chosen on the command line.
pub struct Args {
    /// Show detailed information for each record.
    pub verbose: bool,
    /// Scan the 32-bit registry view.
    pub scan_32bit: bool,
    /// Scan the 64-bit registry view.
    pub scan_64bit: bool,
    /// Ceiling on the number of results (0 = no ceiling).
    pub limit: usize,
    /// Free-text filter over identifier, friendly name and description.
    pub filter: Option<String>,
    /// Filter on the description only.
    pub filter_description: Option<String>,
    /// Filter on the identifier only.
    pub filter_clsid: Option<String>,
    /// Application keywords; any one of them may match any field.
    pub filter_app: Option<Vec<String>>,
}

/// One COM component registration, keyed by its class identifier.
pub struct ComObject {
    pub clsid: String,
    pub prog_id: Option<String>,
    pub description: Option<String>,
}

/// The mathematical value of a `ComObject`.
pub struct ObjectView {
    pub clsid: Seq<char>,
    pub prog_id: Option<Seq<char>>,
    pub description: Option<Seq<char>>,
}

pub open spec fn opt_view(o: Option<String>) -> Option<Seq<char>> {
    match o {
        Some(s) => Some(s@),
        None => None,
    }
}

impl View for ComObject {
    type V = ObjectView;

    open spec fn view(&self) -> ObjectView {
        ObjectView {
            clsid: self.clsid@,
            prog_id: opt_view(self.prog_id),
            description: opt_view(self.description),
        }
    }
}

/// Copies an optional string.
pub fn clone_opt(o: &Option<String>) -> (r: Option<String>)
    ensures
        r == *o,
{
    match o {
        Some(s) => Some(s.clone()),
        None => None,
    }
}

impl ComObject {
    /// A copy of this record, equal to it field by field.
    pub fn duplicate(&self) -> (r: ComObject)
        ensures
            r == *self,
    {
        ComObject {
            clsid: self.clsid.clone(),
            prog_id: clone_opt(&self.prog_id),
            description: clone_opt(&self.description),
        }
    }
}

/// The four independent, optional predicates that decide admission.
pub struct FilterSet {
    /// Matches identifier, friendly name or description.
    pub text: Option<String>,
    /// Matches the description only.
    pub description: Option<String>,
    /// Matches the identifier only.
    pub clsid: Option<String>,
    /// Any keyword matching any of the three fields.
    pub app: Option<Vec<String>>,
}

/// The mathematical value of a `FilterSet`.
pub struct FilterView {
    pub text: Option<Seq<char>>,
    pub description: Option<Seq<char>>,
    pub clsid: Option<Seq<char>>,
    pub app: Option<Seq<Seq<char>>>,
}

pub open spec fn strings_view(v: Vec<String>) -> Seq<Seq<char>> {
    v@.map_values(|s: String| s@)
}

pub open spec fn opt_strings_view(o: Option<Vec<String>>) -> Option<Seq<Seq<char>>> {
    match o {
        Some(v) => Some(strings_view(v)),
        None => None,
    }
}

impl View for FilterSet {
    type V = FilterView;

    open spec fn view(&self) -> FilterView {
        FilterView {
            text: opt_view(self.text),
            description: opt_view(self.description),
            clsid: opt_view(self.clsid),
            app: opt_strings_view(self.app),
        }
    }
}

} // verus!
