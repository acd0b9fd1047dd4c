//! Metadata about a decision of the engine.

use vstd::prelude::*;
use crate::pairs::{strings_view, copy_strings};

verus! {

/// Metadata about a decision.
#[derive(Debug, Clone, PartialEq)]
pub struct DecisionMetadata {
    /// The matched route ID, if any.
    pub route_id: Option<String>,
    /// Descriptions of the matchers that matched.
    pub matcher_results: Vec<String>,
    /// Descriptions of the transforms that were applied.
    pub transforms_applied: Vec<String>,
    /// Time spent on the request, in microseconds.
    pub elapsed_us: u64,
}

/// Model of decision metadata.
pub struct MetadataModel {
    pub route_id: Option<Seq<char>>,
    pub matcher_results: Seq<Seq<char>>,
    pub transforms_applied: Seq<Seq<char>>,
    pub elapsed_us: u64,
}

impl View for DecisionMetadata {
    type V = MetadataModel;

    open spec fn view(&self) -> MetadataModel {
        MetadataModel {
            route_id: match self.route_id {
                Some(s) => Some(s@),
                None => None,
            },
            matcher_results: strings_view(self.matcher_results@),
            transforms_applied: strings_view(self.transforms_applied@),
            elapsed_us: self.elapsed_us,
        }
    }
}

/// The model of `DecisionMetadata::new()`.
pub open spec fn metadata_new() -> MetadataModel {
    MetadataModel {
        route_id: None,
        matcher_results: Seq::empty(),
        transforms_applied: Seq::empty(),
        elapsed_us: 0,
    }
}

impl DecisionMetadata {
    /// Metadata with nothing recorded.
    pub fn new() -> (r: DecisionMetadata)
        ensures
            r@ == metadata_new(),
    {
        let r = DecisionMetadata {
            route_id: None,
            matcher_results: Vec::new(),
            transforms_applied: Vec::new(),
            elapsed_us: 0,
        };
        assert(r@.matcher_results =~= Seq::<Seq<char>>::empty());
        assert(r@.transforms_applied =~= Seq::<Seq<char>>::empty());
        r
    }

    /// Sets the route ID.
    pub fn with_route_id(self, route_id: &str) -> (r: DecisionMetadata)
        ensures
            r@ == (MetadataModel { route_id: Some(route_id@), ..self@ }),
    {
        DecisionMetadata { route_id: Some(String::from_str(route_id)), ..self }
    }

    /// Adds a matcher result description.
    pub fn with_matcher_result(self, result: &str) -> (r: DecisionMetadata)
        ensures
            r@ == (MetadataModel { matcher_results: self@.matcher_results.push(result@), ..self@ }),
    {
        let mut s = self;
        s.matcher_results.push(String::from_str(result));
        assert(strings_view(s.matcher_results@) =~= strings_view(self.matcher_results@).push(result@));
        s
    }

    /// Adds a transform description.
    pub fn with_transform_applied(self, transform: &str) -> (r: DecisionMetadata)
        ensures
            r@ == (MetadataModel {
                transforms_applied: self@.transforms_applied.push(transform@),
                ..self@
            }),
    {
        let mut s = self;
        s.transforms_applied.push(String::from_str(transform));
        assert(strings_view(s.transforms_applied@) =~= strings_view(self.transforms_applied@).push(
            transform@,
        ));
        s
    }

    /// Sets the elapsed time in microseconds.
    pub fn with_elapsed(self, elapsed_us: u64) -> (r: DecisionMetadata)
        ensures
            r@ == (MetadataModel { elapsed_us, ..self@ }),
    {
        DecisionMetadata { elapsed_us, ..self }
    }

    /// A copy of the metadata.
    pub fn duplicate(&self) -> (r: DecisionMetadata)
        ensures
            r@ == self@,
    {
        let route_id = match &self.route_id {
            Some(s) => Some(s.clone()),
            None => None,
        };
        DecisionMetadata {
            route_id,
            matcher_results: copy_strings(&self.matcher_results),
            transforms_applied: copy_strings(&self.transforms_applied),
            elapsed_us: self.elapsed_us,
        }
    }
}

impl Default for DecisionMetadata {
    /// Metadata with nothing recorded.
    fn default() -> (r: DecisionMetadata)
        ensures
            r@ == metadata_new(),
    {
        DecisionMetadata::new()
    }
}

} // verus!
