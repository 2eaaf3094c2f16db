//! A whole resolution in one piece: what the runtime answers in its course,
//! and the outcome that these answers give.

use crate::error::{QueryKind, ResolveError};
use crate::record::{assembled, bound_origins, BindingOriginText, RawBindingBytes};
use crate::resolver::{
    advance_spec, NamePart, RequestView, ResolutionView, ResponseView, StepView,
};
use vstd::prelude::*;

verus! {

/// The runtime's answers in the course of one resolution. A `None`, and a
/// `false`, is a query that the runtime failed.
pub struct Transcript {
    /// Whether the runtime is connected.
    pub connected: bool,
    /// Whether the refresh over the active sets went through.
    pub refreshed: bool,
    /// The origins as the runtime lists them, zeros included.
    pub origins: Option<Seq<u64>>,
    /// The controller type of each bound origin, by its position.
    pub controller_types: Seq<Option<Seq<char>>>,
    /// The hand of each bound origin, by its position.
    pub hands: Seq<Option<Seq<char>>>,
    /// The input source of each bound origin, by its position.
    pub input_sources: Seq<Option<Seq<char>>>,
    /// The binding information of the action.
    pub binding_info: Option<Seq<RawBindingBytes>>,
}

/// The names that the runtime gave, in their order: a name that it failed to
/// give leaves no entry, and the names behind it move up.
pub open spec fn granted(answers: Seq<Option<Seq<char>>>) -> Seq<Seq<char>>
    decreases answers.len(),
{
    if answers.len() == 0 {
        Seq::empty()
    } else {
        match answers.last() {
            Some(name) => granted(answers.drop_last()).push(name),
            None => granted(answers.drop_last()),
        }
    }
}

/// The answer to a name query as the resolver takes it.
pub open spec fn name_answer(answer: Option<Seq<char>>) -> ResponseView {
    match answer {
        Some(name) => ResponseView::LocalizedName(name),
        None => ResponseView::Failed,
    }
}

/// The answers to the name queries of one pass over the origins.
pub open spec fn name_answers(answers: Seq<Option<Seq<char>>>) -> Seq<ResponseView> {
    answers.map_values(|answer: Option<Seq<char>>| name_answer(answer))
}

/// The name queries of one pass: one for each origin, in the origins' order.
pub open spec fn name_queries(origins: Seq<u64>, part: NamePart) -> Seq<RequestView> {
    origins.map_values(|origin: u64| RequestView::LocalizedName { origin, part })
}

impl Transcript {
    /// The bound origins: those of the runtime's list that are not zero.
    pub open spec fn bound(self) -> Seq<u64> {
        match self.origins {
            Some(reported) => bound_origins(reported),
            None => Seq::empty(),
        }
    }

    /// The runtime answers one name query of each part for each bound origin.
    pub open spec fn wf(self) -> bool {
        &&& self.controller_types.len() == self.bound().len()
        &&& self.hands.len() == self.bound().len()
        &&& self.input_sources.len() == self.bound().len()
    }

    pub open spec fn connect_answer(self) -> ResponseView {
        if self.connected {
            ResponseView::Ready
        } else {
            ResponseView::Unavailable
        }
    }

    pub open spec fn refresh_answer(self) -> ResponseView {
        if self.refreshed {
            ResponseView::Ready
        } else {
            ResponseView::Failed
        }
    }

    pub open spec fn origins_answer(self) -> ResponseView {
        match self.origins {
            Some(reported) => ResponseView::Origins(reported),
            None => ResponseView::Failed,
        }
    }

    pub open spec fn binding_info_answer(self) -> ResponseView {
        match self.binding_info {
            Some(infos) => ResponseView::BindingInfo(infos),
            None => ResponseView::Failed,
        }
    }

    /// The answers in the order in which a resolution asks for them: the
    /// connection, the refresh, the origins, then for all bound origins the
    /// controller types, the hands and the input sources, and at last the
    /// binding information.
    pub open spec fn script(self) -> Seq<ResponseView> {
        seq![self.connect_answer(), self.refresh_answer(), self.origins_answer()] + name_answers(
            self.controller_types,
        ) + name_answers(self.hands) + name_answers(self.input_sources)
            + seq![self.binding_info_answer()]
    }

    /// The queries that follow the connection check, in the order in which a
    /// resolution puts them: none behind a query that ends the resolution.
    pub open spec fn queries(self, active_sets: Seq<u64>, action_set: u64, action: u64) -> Seq<
        RequestView,
    > {
        let refresh = seq![RequestView::Refresh { active_sets }];
        let origins = seq![RequestView::Origins { action_set, action }];
        if !self.connected {
            Seq::empty()
        } else if !self.refreshed {
            refresh
        } else if self.origins is None {
            refresh + origins
        } else {
            refresh + origins + name_queries(self.bound(), NamePart::ControllerType)
                + name_queries(self.bound(), NamePart::Hand) + name_queries(
                self.bound(),
                NamePart::InputSource,
            ) + seq![RequestView::BindingInfo { action }]
        }
    }

    /// The outcome that the answers give: the first failed query other than a
    /// name query decides; else the records are assembled from the names that
    /// the runtime gave and the binding information.
    pub open spec fn outcome(self) -> Result<Seq<BindingOriginText>, ResolveError> {
        if !self.connected {
            Err(ResolveError::RuntimeUnavailable)
        } else if !self.refreshed {
            Err(ResolveError::QueryFailed(QueryKind::Refresh))
        } else if self.origins is None {
            Err(ResolveError::QueryFailed(QueryKind::Origins))
        } else {
            match self.binding_info {
                None => Err(ResolveError::QueryFailed(QueryKind::BindingInfo)),
                Some(infos) => assembled(
                    self.bound().len(),
                    granted(self.controller_types),
                    granted(self.hands),
                    granted(self.input_sources),
                    infos,
                ),
            }
        }
    }
}

/// The outcome of a resolution in `state` that is handed `responses` one
/// after the other, from position `next` on; `None` where they end before the
/// resolution is finished.
pub open spec fn run(state: ResolutionView, responses: Seq<ResponseView>, next: int) -> Option<
    Result<Seq<BindingOriginText>, ResolveError>,
>
    decreases responses.len() - next,
{
    if next < 0 || next >= responses.len() {
        None
    } else {
        let (after, step) = advance_spec(state, responses[next]);
        match step {
            StepView::Finished(outcome) => Some(outcome),
            StepView::Ask(_) => run(after, responses, next + 1),
        }
    }
}

/// The queries that a resolution in `state` puts to the runtime while it is
/// handed `responses` one after the other, from position `next` on.
pub open spec fn asked(state: ResolutionView, responses: Seq<ResponseView>, next: int) -> Seq<
    RequestView,
>
    decreases responses.len() - next,
{
    if next < 0 || next >= responses.len() {
        Seq::empty()
    } else {
        let (after, step) = advance_spec(state, responses[next]);
        match step {
            StepView::Finished(_) => Seq::empty(),
            StepView::Ask(request) => seq![request] + asked(after, responses, next + 1),
        }
    }
}

} // verus!
