use vstd::prelude::*;

verus! {

/// What a diagnostic is about.
#[derive(Clone, Copy, Debug, PartialEq, Eq, Structural)]
pub enum WarningKind {
    /// The metadata line fits neither accepted shape, or its page is not
    /// a valid integer: the whole block was dropped.
    MetadataLine,
    /// The location range did not parse: the record keeps zero markers.
    LocationRange,
    /// The date fits neither accepted format: the record keeps time zero.
    DateAdded,
}

/// The mathematical value of a diagnostic.
pub ghost struct SpecWarning {
    pub kind: WarningKind,
    pub text: Seq<char>,
}

/// One structured diagnostic: the text that failed to parse and what it
/// failed as. Diagnostics are collected and returned alongside the parsed
/// output rather than printed, so the caller decides how to surface them.
#[derive(Debug, PartialEq)]
pub struct Warning {
    pub kind: WarningKind,
    pub text: String,
}

impl View for Warning {
    type V = SpecWarning;

    open spec fn view(&self) -> SpecWarning {
        SpecWarning { kind: self.kind, text: self.text@ }
    }
}

impl DeepView for Warning {
    type V = SpecWarning;

    open spec fn deep_view(&self) -> SpecWarning {
        self.view()
    }
}

} // verus!
