use vstd::prelude::*;
use vstd::string::StringExecFns;

verus! {

/// The ways a decode of the binary asset container can fail.
#[derive(Debug, Clone, PartialEq)]
pub enum AssetErrors {
    /// Structural failure: a truncated stream, a failed magic/marker check, or
    /// an internal inconsistency. Carries a short label naming the field that
    /// could not be decoded.
    ParserError(String),
    /// An asset-type tag string that is not in the fixed table.
    UnknownAssetTypeError(String),
    /// An attribute tag string that is not in the fixed table.
    UnknownAttributeError(String),
}

/// Mathematical image of `AssetErrors`, with text as character sequences.
pub enum AssetErrorView {
    Parser(Seq<char>),
    UnknownAssetType(Seq<char>),
    UnknownAttribute(Seq<char>),
}

impl View for AssetErrors {
    type V = AssetErrorView;

    open spec fn view(&self) -> AssetErrorView {
        match self {
            AssetErrors::ParserError(s) => AssetErrorView::Parser(s@),
            AssetErrors::UnknownAssetTypeError(s) => AssetErrorView::UnknownAssetType(s@),
            AssetErrors::UnknownAttributeError(s) => AssetErrorView::UnknownAttribute(s@),
        }
    }
}

impl AssetErrors {
    /// A human-readable description of the failure.
    pub fn message(&self) -> (r: String)
        ensures
            self@ matches AssetErrorView::Parser(l) ==> r@ == "could not align data to the expected format: "@ + l,
            self@ matches AssetErrorView::UnknownAssetType(l) ==> r@ == "unknown asset type: "@ + l,
            self@ matches AssetErrorView::UnknownAttribute(l) ==> r@ == "unknown asset attribute: "@ + l,
    {
        match self {
            AssetErrors::ParserError(l) => {
                String::from_str("could not align data to the expected format: ").concat(l.as_str())
            },
            AssetErrors::UnknownAssetTypeError(l) => {
                String::from_str("unknown asset type: ").concat(l.as_str())
            },
            AssetErrors::UnknownAttributeError(l) => {
                String::from_str("unknown asset attribute: ").concat(l.as_str())
            },
        }
    }
}

} // verus!
