//! The engine's decision for a request.

use vstd::prelude::*;
use crate::forward::{ForwardPlan, PlanModel};
use crate::metadata::{DecisionMetadata, MetadataModel};
use crate::response::{ResponseData, ResponseModel};

verus! {

/// What the engine decided for an incoming request.
#[derive(Debug, PartialEq)]
pub enum Decision {
    /// Return a locally defined mock response.
    Mock { response: ResponseData, metadata: DecisionMetadata },
    /// Forward the request to an upstream service.
    Forward { plan: ForwardPlan, metadata: DecisionMetadata },
    /// Reject the request with an error response.
    Reject { response: ResponseData, metadata: DecisionMetadata },
}

/// Model of a decision.
pub enum DecisionModel {
    Mock { response: ResponseModel, metadata: MetadataModel },
    Forward { plan: PlanModel, metadata: MetadataModel },
    Reject { response: ResponseModel, metadata: MetadataModel },
}

impl View for Decision {
    type V = DecisionModel;

    open spec fn view(&self) -> DecisionModel {
        match self {
            Decision::Mock { response, metadata } => DecisionModel::Mock {
                response: response@,
                metadata: metadata@,
            },
            Decision::Forward { plan, metadata } => DecisionModel::Forward {
                plan: plan@,
                metadata: metadata@,
            },
            Decision::Reject { response, metadata } => DecisionModel::Reject {
                response: response@,
                metadata: metadata@,
            },
        }
    }
}

/// The metadata of a decision model.
pub open spec fn decision_metadata(d: DecisionModel) -> MetadataModel {
    match d {
        DecisionModel::Mock { metadata, .. } => metadata,
        DecisionModel::Forward { metadata, .. } => metadata,
        DecisionModel::Reject { metadata, .. } => metadata,
    }
}

impl Decision {
    /// The metadata of this decision.
    pub fn metadata(&self) -> (r: &DecisionMetadata)
        ensures
            r@ == decision_metadata(self@),
    {
        match self {
            Decision::Mock { metadata, .. } => metadata,
            Decision::Forward { metadata, .. } => metadata,
            Decision::Reject { metadata, .. } => metadata,
        }
    }

    /// The matched route ID, if a route matched.
    pub fn route_id(&self) -> (r: Option<&str>)
        ensures
            match r {
                Some(s) => decision_metadata(self@).route_id == Some(s@),
                None => decision_metadata(self@).route_id is None,
            },
    {
        match &self.metadata().route_id {
            Some(s) => Some(s.as_str()),
            None => None,
        }
    }
}

} // verus!
