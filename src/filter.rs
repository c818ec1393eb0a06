//! Capture filter expressions.
use vstd::prelude::*;
use crate::error::ScanError;
use crate::text::{chars_of, trim, trim_chars};
use crate::types::PacketInfo;

verus! {

/// A capture filter; matching itself is left to the capture library.
pub struct PacketFilter {
    pub filter_expr: Option<String>,
}

impl PacketFilter {
    pub fn new(filter_expr: Option<String>) -> (r: PacketFilter)
        ensures
            r.filter_expr == filter_expr,
    {
        PacketFilter { filter_expr }
    }

    /// Every packet passes: the capture library applies the expression.
    pub fn matches(&self, _packet: &PacketInfo) -> (r: bool)
        ensures
            r,
    {
        true
    }

    /// A filter expression must hold something besides whitespace.
    pub fn is_valid_bpf_filter(filter: &str) -> (r: Result<(), ScanError>)
        ensures
            r is Ok <==> trim(filter@).len() > 0,
            r is Err ==> r == Err::<(), ScanError>(ScanError::FormatError),
    {
        if trim_chars(&chars_of(filter)).len() == 0 {
            return Err(ScanError::FormatError);
        }
        Ok(())
    }
}

} // verus!
