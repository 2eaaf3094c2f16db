//! The resolver: from the names of an action set and an action to the records
//! of the action's bound origins.
//!
//! The resolver does not talk to the runtime. It says which query comes next,
//! takes the runtime's answer, and decides what follows: the caller performs
//! each query and hands the answer back until the resolution is finished.

use crate::error::{QueryKind, ResolveError};
use crate::record::{
    assemble, assembled, bound_origins, filter_origins, outcome_view, BindingOriginData,
    BindingOriginText, RawBindingBytes, RawBindingInfo,
};
use crate::registry::{handle_of, names_of, Entries, HandleTable};
use vstd::prelude::*;

verus! {

/// The three localized names that the runtime has for an origin.
#[derive(Clone, Copy, Debug, PartialEq, Eq, Structural)]
pub enum NamePart {
    ControllerType,
    Hand,
    InputSource,
}

/// A query for the caller to put to the runtime.
#[derive(Clone, Debug, PartialEq, Eq)]
pub enum Request {
    /// Take hold of the runtime connection, if there is one.
    Connect,
    /// Refresh the runtime's action state over all of these active sets.
    Refresh { active_sets: Vec<u64> },
    /// List the origins of `action` within `action_set`.
    Origins { action_set: u64, action: u64 },
    /// Ask for one localized name of `origin`.
    LocalizedName { origin: u64, part: NamePart },
    /// Ask for the binding information of `action`, one entry for each origin.
    BindingInfo { action: u64 },
}

/// The view of a [`Request`].
pub enum RequestView {
    Connect,
    Refresh { active_sets: Seq<u64> },
    Origins { action_set: u64, action: u64 },
    LocalizedName { origin: u64, part: NamePart },
    BindingInfo { action: u64 },
}

impl View for Request {
    type V = RequestView;

    open spec fn view(&self) -> RequestView {
        match *self {
            Request::Connect => RequestView::Connect,
            Request::Refresh { active_sets } => RequestView::Refresh { active_sets: active_sets@ },
            Request::Origins { action_set, action } => RequestView::Origins { action_set, action },
            Request::LocalizedName { origin, part } => RequestView::LocalizedName { origin, part },
            Request::BindingInfo { action } => RequestView::BindingInfo { action },
        }
    }
}

/// The runtime's answer to a query.
#[derive(Clone, Debug, PartialEq, Eq)]
pub enum Response {
    /// To `Connect`: the runtime is not connected.
    Unavailable,
    /// To any query but `Connect`: the runtime reported an error.
    Failed,
    /// To `Connect` and `Refresh`: done.
    Ready,
    /// To `Origins`: the origins as the runtime lists them, zeros included.
    Origins(Vec<u64>),
    /// To `LocalizedName`: the name.
    LocalizedName(String),
    /// To `BindingInfo`: the entries in the runtime's order.
    BindingInfo(Vec<RawBindingInfo>),
}

/// The view of a [`Response`].
pub enum ResponseView {
    Unavailable,
    Failed,
    Ready,
    Origins(Seq<u64>),
    LocalizedName(Seq<char>),
    BindingInfo(Seq<RawBindingBytes>),
}

impl View for Response {
    type V = ResponseView;

    open spec fn view(&self) -> ResponseView {
        match *self {
            Response::Unavailable => ResponseView::Unavailable,
            Response::Failed => ResponseView::Failed,
            Response::Ready => ResponseView::Ready,
            Response::Origins(origins) => ResponseView::Origins(origins@),
            Response::LocalizedName(name) => ResponseView::LocalizedName(name@),
            Response::BindingInfo(infos) => ResponseView::BindingInfo(infos.deep_view()),
        }
    }
}

/// What the caller does next: put a query to the runtime, or take the outcome.
#[derive(Debug, PartialEq, Eq)]
pub enum Step {
    Ask(Request),
    Finished(Result<Vec<BindingOriginData>, ResolveError>),
}

/// The view of a [`Step`].
pub enum StepView {
    Ask(RequestView),
    Finished(Result<Seq<BindingOriginText>, ResolveError>),
}

impl View for Step {
    type V = StepView;

    open spec fn view(&self) -> StepView {
        match *self {
            Step::Ask(request) => StepView::Ask(request@),
            Step::Finished(outcome) => StepView::Finished(outcome_view(outcome)),
        }
    }
}

/// Where a resolution stands: the query whose answer it waits for.
#[derive(Clone, Copy, Debug, PartialEq, Eq, Structural)]
pub enum Phase {
    Connecting,
    Refreshing,
    ListingOrigins,
    Naming(NamePart),
    ReadingBindingInfo,
    Closed,
}

/// The state of a resolution.
pub struct ResolutionView {
    pub phase: Phase,
    /// All active action sets, which the refresh covers.
    pub active_sets: Seq<u64>,
    pub action_set: u64,
    pub action: u64,
    /// The bound origins, once the runtime has listed them.
    pub origins: Seq<u64>,
    /// The names that the runtime gave so far; a name that it failed to give
    /// leaves no entry.
    pub controller_types: Seq<Seq<char>>,
    pub hands: Seq<Seq<char>>,
    pub input_sources: Seq<Seq<char>>,
    /// While naming: the position of the origin that the pending query is about.
    pub cursor: nat,
}

impl ResolutionView {
    /// The state's invariant: no origin is zero, and a pending name query is
    /// about one of the origins.
    pub open spec fn wf(self) -> bool {
        &&& forall|i: int| 0 <= i < self.origins.len() ==> self.origins[i] != 0
        &&& self.phase is Naming ==> self.cursor < self.origins.len()
    }

    /// The state in which nothing is pending, with the outcome to hand out.
    pub open spec fn finish(self, outcome: Result<Seq<BindingOriginText>, ResolveError>) -> (
        ResolutionView,
        StepView,
    ) {
        (ResolutionView { phase: Phase::Closed, ..self }, StepView::Finished(outcome))
    }

    /// The state with one more name of the given part.
    pub open spec fn with_name(self, part: NamePart, name: Seq<char>) -> ResolutionView {
        match part {
            NamePart::ControllerType => ResolutionView {
                controller_types: self.controller_types.push(name),
                ..self
            },
            NamePart::Hand => ResolutionView { hands: self.hands.push(name), ..self },
            NamePart::InputSource => ResolutionView {
                input_sources: self.input_sources.push(name),
                ..self
            },
        }
    }

    /// The first query of a pass over the origins for `part`.
    pub open spec fn start_pass(self, part: NamePart) -> (ResolutionView, StepView) {
        (
            ResolutionView { phase: Phase::Naming(part), cursor: 0, ..self },
            StepView::Ask(RequestView::LocalizedName { origin: self.origins[0], part }),
        )
    }

    /// The query for the binding information, which follows the names.
    pub open spec fn ask_binding_info(self) -> (ResolutionView, StepView) {
        (
            ResolutionView { phase: Phase::ReadingBindingInfo, cursor: 0, ..self },
            StepView::Ask(RequestView::BindingInfo { action: self.action }),
        )
    }

    /// What follows the answer to a name query for `part`: the same name of
    /// the next origin, then the next part from the first origin on, then the
    /// binding information.
    pub open spec fn after_name(self, part: NamePart) -> (ResolutionView, StepView) {
        if self.cursor + 1 < self.origins.len() {
            (
                ResolutionView { cursor: self.cursor + 1 as nat, ..self },
                StepView::Ask(
                    RequestView::LocalizedName {
                        origin: self.origins[self.cursor + 1 as int],
                        part,
                    },
                ),
            )
        } else {
            match part {
                NamePart::ControllerType => self.start_pass(NamePart::Hand),
                NamePart::Hand => self.start_pass(NamePart::InputSource),
                NamePart::InputSource => self.ask_binding_info(),
            }
        }
    }

    /// What follows the runtime's list of origins: the zeros are dropped, and
    /// the names of the others are asked for, if there are any.
    pub open spec fn after_origins(self, reported: Seq<u64>) -> (ResolutionView, StepView) {
        let listed = ResolutionView { origins: bound_origins(reported), ..self };
        if listed.origins.len() == 0 {
            listed.ask_binding_info()
        } else {
            listed.start_pass(NamePart::ControllerType)
        }
    }
}

/// The state in which a resolution starts, and its first step: nothing is
/// asked of the runtime unless both names are registered.
pub open spec fn begin_spec(
    action_sets: Entries,
    actions: Entries,
    active_sets: Seq<u64>,
    action_set_key: Seq<char>,
    action_key: Seq<char>,
) -> (ResolutionView, StepView) {
    let idle = ResolutionView {
        phase: Phase::Closed,
        active_sets,
        action_set: 0,
        action: 0,
        origins: Seq::empty(),
        controller_types: Seq::empty(),
        hands: Seq::empty(),
        input_sources: Seq::empty(),
        cursor: 0,
    };
    match handle_of(action_sets, action_set_key) {
        None => (idle, StepView::Finished(Err(ResolveError::UnknownActionSet))),
        Some(action_set) => match handle_of(actions, action_key) {
            None => (idle, StepView::Finished(Err(ResolveError::UnknownAction))),
            Some(action) => (
                ResolutionView { phase: Phase::Connecting, action_set, action, ..idle },
                StepView::Ask(RequestView::Connect),
            ),
        },
    }
}

/// The state and the step that follow the runtime's answer to the pending
/// query. A failed name query leaves the name out and goes on; any other
/// failure, and an answer that does not belong to the pending query, ends the
/// resolution.
pub open spec fn advance_spec(state: ResolutionView, response: ResponseView) -> (
    ResolutionView,
    StepView,
) {
    match state.phase {
        Phase::Connecting => match response {
            ResponseView::Ready => (
                ResolutionView { phase: Phase::Refreshing, ..state },
                StepView::Ask(RequestView::Refresh { active_sets: state.active_sets }),
            ),
            ResponseView::Unavailable => state.finish(Err(ResolveError::RuntimeUnavailable)),
            _ => state.finish(Err(ResolveError::UnexpectedResponse)),
        },
        Phase::Refreshing => match response {
            ResponseView::Ready => (
                ResolutionView { phase: Phase::ListingOrigins, ..state },
                StepView::Ask(
                    RequestView::Origins { action_set: state.action_set, action: state.action },
                ),
            ),
            ResponseView::Failed => state.finish(
                Err(ResolveError::QueryFailed(QueryKind::Refresh)),
            ),
            _ => state.finish(Err(ResolveError::UnexpectedResponse)),
        },
        Phase::ListingOrigins => match response {
            ResponseView::Origins(reported) => state.after_origins(reported),
            ResponseView::Failed => state.finish(
                Err(ResolveError::QueryFailed(QueryKind::Origins)),
            ),
            _ => state.finish(Err(ResolveError::UnexpectedResponse)),
        },
        Phase::Naming(part) => match response {
            ResponseView::LocalizedName(name) => state.with_name(part, name).after_name(part),
            ResponseView::Failed => state.after_name(part),
            _ => state.finish(Err(ResolveError::UnexpectedResponse)),
        },
        Phase::ReadingBindingInfo => match response {
            ResponseView::BindingInfo(infos) => state.finish(
                assembled(
                    state.origins.len(),
                    state.controller_types,
                    state.hands,
                    state.input_sources,
                    infos,
                ),
            ),
            ResponseView::Failed => state.finish(
                Err(ResolveError::QueryFailed(QueryKind::BindingInfo)),
            ),
            _ => state.finish(Err(ResolveError::UnexpectedResponse)),
        },
        Phase::Closed => state.finish(Err(ResolveError::UnexpectedResponse)),
    }
}

/// A resolution under way.
pub struct Resolution {
    phase: Phase,
    active_sets: Vec<u64>,
    action_set: u64,
    action: u64,
    origins: Vec<u64>,
    controller_types: Vec<String>,
    hands: Vec<String>,
    input_sources: Vec<String>,
    cursor: usize,
}

impl View for Resolution {
    type V = ResolutionView;

    closed spec fn view(&self) -> ResolutionView {
        ResolutionView {
            phase: self.phase,
            active_sets: self.active_sets@,
            action_set: self.action_set,
            action: self.action,
            origins: self.origins@,
            controller_types: self.controller_types.deep_view(),
            hands: self.hands.deep_view(),
            input_sources: self.input_sources.deep_view(),
            cursor: self.cursor as nat,
        }
    }
}

impl Resolution {
    #[verifier::type_invariant]
    spec fn inv(self) -> bool {
        self@.wf()
    }

    /// Starts the resolution of the action registered as `action_key` within
    /// the action set registered as `action_set_key`. `active_sets` are all
    /// the action sets that are active now.
    pub fn begin(
        action_sets: &HandleTable,
        actions: &HandleTable,
        active_sets: Vec<u64>,
        action_set_key: &String,
        action_key: &String,
    ) -> (start: (Resolution, Step))
        ensures
            (start.0@, start.1@) == begin_spec(
                action_sets@,
                actions@,
                active_sets@,
                action_set_key@,
                action_key@,
            ),
            !names_of(action_sets@).contains(action_set_key@) ==> start.1@ == StepView::Finished(
                Err(ResolveError::UnknownActionSet),
            ),
            start.0@.wf(),
    {
        let mut state = Resolution {
            phase: Phase::Closed,
            active_sets,
            action_set: 0,
            action: 0,
            origins: Vec::new(),
            controller_types: Vec::new(),
            hands: Vec::new(),
            input_sources: Vec::new(),
            cursor: 0,
        };
        assert(state@.controller_types =~= Seq::empty());
        assert(state@.hands =~= Seq::empty());
        assert(state@.input_sources =~= Seq::empty());
        let action_set = match action_sets.lookup(action_set_key) {
            Some(handle) => handle,
            None => {
                return (state, Step::Finished(Err(ResolveError::UnknownActionSet)));
            },
        };
        let action = match actions.lookup(action_key) {
            Some(handle) => handle,
            None => {
                return (state, Step::Finished(Err(ResolveError::UnknownAction)));
            },
        };
        state.action_set = action_set;
        state.action = action;
        state.phase = Phase::Connecting;
        (state, Step::Ask(Request::Connect))
    }

    /// The bound origins that the runtime has listed, in its order; empty
    /// until it has.
    pub fn origins(&self) -> (origins: &Vec<u64>)
        ensures
            origins@ == self@.origins,
            forall|i: int| 0 <= i < origins@.len() ==> origins@[i] != 0,
    {
        proof {
            use_type_invariant(self);
            assert(self@.wf());
        }
        &self.origins
    }

    fn finish(self, outcome: Result<Vec<BindingOriginData>, ResolveError>) -> (next: (
        Resolution,
        Step,
    ))
        ensures
            (next.0@, next.1@) == self@.finish(outcome_view(outcome)),
            next.0@.wf(),
    {
        proof {
            use_type_invariant(&self);
            assert(self.origins@ == self@.origins);
        }
        let mut closed = self;
        closed.phase = Phase::Closed;
        (closed, Step::Finished(outcome))
    }

    fn fail(self, error: ResolveError) -> (next: (Resolution, Step))
        ensures
            (next.0@, next.1@) == self@.finish(Err(error)),
            next.0@.wf(),
    {
        self.finish(Err(error))
    }

    fn start_pass(self, part: NamePart) -> (next: (Resolution, Step))
        requires
            self@.origins.len() > 0,
        ensures
            (next.0@, next.1@) == self@.start_pass(part),
            next.0@.wf(),
    {
        proof {
            use_type_invariant(&self);
        }
        let mut naming = self;
        naming.cursor = 0;
        naming.phase = Phase::Naming(part);
        let origin = naming.origins[0];
        (naming, Step::Ask(Request::LocalizedName { origin, part }))
    }

    fn ask_binding_info(self) -> (next: (Resolution, Step))
        ensures
            (next.0@, next.1@) == self@.ask_binding_info(),
            next.0@.wf(),
    {
        proof {
            use_type_invariant(&self);
            assert(self.origins@ == self@.origins);
        }
        let mut reading = self;
        reading.phase = Phase::ReadingBindingInfo;
        reading.cursor = 0;
        let action = reading.action;
        (reading, Step::Ask(Request::BindingInfo { action }))
    }

    fn with_name(self, part: NamePart, name: String) -> (named: Resolution)
        ensures
            named@ == self@.with_name(part, name@),
    {
        proof {
            use_type_invariant(&self);
        }
        let Resolution {
            phase,
            active_sets,
            action_set,
            action,
            origins,
            mut controller_types,
            mut hands,
            mut input_sources,
            cursor,
        } = self;
        let ghost before = self@;
        match part {
            NamePart::ControllerType => {
                controller_types.push(name);
                assert(controller_types.deep_view() =~= before.controller_types.push(name@));
            },
            NamePart::Hand => {
                hands.push(name);
                assert(hands.deep_view() =~= before.hands.push(name@));
            },
            NamePart::InputSource => {
                input_sources.push(name);
                assert(input_sources.deep_view() =~= before.input_sources.push(name@));
            },
        }
        Resolution {
            phase,
            active_sets,
            action_set,
            action,
            origins,
            controller_types,
            hands,
            input_sources,
            cursor,
        }
    }

    fn after_name(self, part: NamePart) -> (next: (Resolution, Step))
        requires
            self@.phase is Naming,
        ensures
            (next.0@, next.1@) == self@.after_name(part),
            next.0@.wf(),
    {
        proof {
            use_type_invariant(&self);
        }
        let count = self.origins.len();
        if self.cursor + 1 < count {
            let mut naming = self;
            naming.cursor = naming.cursor + 1;
            let origin = naming.origins[naming.cursor];
            (naming, Step::Ask(Request::LocalizedName { origin, part }))
        } else {
            match part {
                NamePart::ControllerType => self.start_pass(NamePart::Hand),
                NamePart::Hand => self.start_pass(NamePart::InputSource),
                NamePart::InputSource => self.ask_binding_info(),
            }
        }
    }

    fn after_origins(self, reported: &Vec<u64>) -> (next: (Resolution, Step))
        requires
            !(self@.phase is Naming),
        ensures
            (next.0@, next.1@) == self@.after_origins(reported@),
            next.0@.wf(),
    {
        let mut listed = self;
        listed.origins = filter_origins(reported);
        if listed.origins.len() == 0 {
            listed.ask_binding_info()
        } else {
            listed.start_pass(NamePart::ControllerType)
        }
    }

    /// Takes the runtime's answer to the pending query and says what follows.
    pub fn advance(self, response: Response) -> (next: (Resolution, Step))
        ensures
            (next.0@, next.1@) == advance_spec(self@, response@),
            next.0@.wf(),
    {
        proof {
            use_type_invariant(&self);
        }
        match self.phase {
            Phase::Connecting => match response {
                Response::Ready => {
                    let active_sets = self.active_sets.clone();
                    let mut refreshing = self;
                    refreshing.phase = Phase::Refreshing;
                    (refreshing, Step::Ask(Request::Refresh { active_sets }))
                },
                Response::Unavailable => self.fail(ResolveError::RuntimeUnavailable),
                _ => self.fail(ResolveError::UnexpectedResponse),
            },
            Phase::Refreshing => match response {
                Response::Ready => {
                    let request = Request::Origins {
                        action_set: self.action_set,
                        action: self.action,
                    };
                    let mut listing = self;
                    listing.phase = Phase::ListingOrigins;
                    (listing, Step::Ask(request))
                },
                Response::Failed => self.fail(ResolveError::QueryFailed(QueryKind::Refresh)),
                _ => self.fail(ResolveError::UnexpectedResponse),
            },
            Phase::ListingOrigins => match response {
                Response::Origins(reported) => self.after_origins(&reported),
                Response::Failed => self.fail(ResolveError::QueryFailed(QueryKind::Origins)),
                _ => self.fail(ResolveError::UnexpectedResponse),
            },
            Phase::Naming(part) => match response {
                Response::LocalizedName(name) => self.with_name(part, name).after_name(part),
                Response::Failed => self.after_name(part),
                _ => self.fail(ResolveError::UnexpectedResponse),
            },
            Phase::ReadingBindingInfo => match response {
                Response::BindingInfo(infos) => {
                    let outcome = assemble(
                        self.origins.len(),
                        &self.controller_types,
                        &self.hands,
                        &self.input_sources,
                        &infos,
                    );
                    self.finish(outcome)
                },
                Response::Failed => self.fail(ResolveError::QueryFailed(QueryKind::BindingInfo)),
                _ => self.fail(ResolveError::UnexpectedResponse),
            },
            Phase::Closed => self.fail(ResolveError::UnexpectedResponse),
        }
    }
}

} // verus!
