//! One observed navigation event, as the host reports it: the input of the
//! reconciliation pipeline.

use vstd::prelude::*;
use crate::types::{Timestamp, VisitTransition};
use crate::urls::Url;

verus! {

/// One navigation event. A missing `visit_type` means a metadata-only
/// update: no visit is recorded.
#[derive(Debug)]
pub struct VisitObservation {
    pub url: Url,
    pub title: Option<String>,
    pub visit_type: Option<VisitTransition>,
    pub at: Option<Timestamp>,
    pub is_remote: Option<bool>,
    pub is_error: Option<bool>,
}

/// The abstract form of an observation. The optional locality and error
/// flags are resolved to their defaults here.
pub struct ObservationModel {
    pub url: Seq<char>,
    pub title: Option<Seq<char>>,
    pub visit_type: Option<VisitTransition>,
    pub at: Option<int>,
    pub is_remote: bool,
    pub is_error: bool,
}

impl View for VisitObservation {
    type V = ObservationModel;

    open spec fn view(&self) -> ObservationModel {
        ObservationModel {
            url: self.url@,
            title: match self.title {
                Some(t) => Some(t@),
                None => None,
            },
            visit_type: self.visit_type,
            at: match self.at {
                Some(t) => Some(t.0 as int),
                None => None,
            },
            is_remote: self.is_remote == Some(true),
            is_error: self.is_error == Some(true),
        }
    }
}

/// Certain transition kinds are framework-internal and always hidden,
/// whatever else the observation says.
pub open spec fn spec_is_hidden(m: ObservationModel) -> bool {
    m.visit_type matches Some(t) && (t == VisitTransition::Embed
        || t == VisitTransition::FramedLink)
}

/// Redirect transitions carry a frecency boost flag to the score
/// calculation.
pub open spec fn spec_redirect_boost(m: ObservationModel) -> bool {
    m.visit_type matches Some(t) && (t == VisitTransition::RedirectPermanent
        || t == VisitTransition::RedirectTemporary)
}

impl VisitObservation {
    pub fn new(url: Url) -> (r: VisitObservation)
        ensures
            r == (VisitObservation {
                url,
                title: None,
                visit_type: None,
                at: None,
                is_remote: None,
                is_error: None,
            }),
    {
        VisitObservation {
            url,
            title: None,
            visit_type: None,
            at: None,
            is_remote: None,
            is_error: None,
        }
    }

    pub fn with_title(self, title: String) -> (r: VisitObservation)
        ensures
            r == (VisitObservation { title: Some(title), ..self }),
    {
        VisitObservation { title: Some(title), ..self }
    }

    pub fn with_visit_type(self, visit_type: VisitTransition) -> (r: VisitObservation)
        ensures
            r == (VisitObservation { visit_type: Some(visit_type), ..self }),
    {
        VisitObservation { visit_type: Some(visit_type), ..self }
    }

    pub fn with_at(self, at: Option<Timestamp>) -> (r: VisitObservation)
        ensures
            r == (VisitObservation { at, ..self }),
    {
        VisitObservation { at, ..self }
    }

    pub fn with_is_remote(self, is_remote: bool) -> (r: VisitObservation)
        ensures
            r == (VisitObservation { is_remote: Some(is_remote), ..self }),
    {
        VisitObservation { is_remote: Some(is_remote), ..self }
    }

    pub fn with_is_error(self, is_error: bool) -> (r: VisitObservation)
        ensures
            r == (VisitObservation { is_error: Some(is_error), ..self }),
    {
        VisitObservation { is_error: Some(is_error), ..self }
    }

    pub fn get_is_hidden(&self) -> (r: bool)
        ensures
            r == spec_is_hidden(self@),
    {
        match self.visit_type {
            Some(t) => t == VisitTransition::Embed || t == VisitTransition::FramedLink,
            None => false,
        }
    }

    pub fn get_redirect_frecency_boost(&self) -> (r: bool)
        ensures
            r == spec_redirect_boost(self@),
    {
        match self.visit_type {
            Some(t) => t == VisitTransition::RedirectPermanent
                || t == VisitTransition::RedirectTemporary,
            None => false,
        }
    }
}

} // verus!
