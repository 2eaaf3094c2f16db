//! What holds of every resolution.

use crate::decode::decoded_text;
use crate::error::ResolveError;
use crate::record::{
    aligned, assembled, bound_origins, decodable, is_bound, BindingOriginText, RawBindingBytes,
};
use crate::registry::{distinct_names, handle_of, names_of, Entries};
use crate::resolver::{
    advance_spec, begin_spec, NamePart, Phase, RequestView, ResolutionView, ResponseView,
    StepView,
};
use crate::transcript::{asked, granted, name_answer, name_queries, run, Transcript};
use vstd::prelude::*;

verus! {

/// A lookup gives the handle of the first entry of the name, and nothing
/// where no entry has the name.
pub proof fn lookup_gives_first_match(entries: Entries, key: Seq<char>)
    ensures
        match handle_of(entries, key) {
            Some(handle) => exists|position: int|
                {
                    &&& 0 <= position < entries.len()
                    &&& #[trigger] entries[position] == (key, handle)
                    &&& forall|earlier: int|
                        0 <= earlier < position ==> (#[trigger] entries[earlier]).0 != key
                },
            None => forall|position: int|
                0 <= position < entries.len() ==> (#[trigger] entries[position]).0 != key,
        },
{
    let names = names_of(entries);
    names.index_of_first_ensures(key);
    match names.index_of_first(key) {
        Some(first) => {
            assert forall|earlier: int| 0 <= earlier < first implies (
            #[trigger] entries[earlier]).0 != key by {
                assert(names[earlier] == entries[earlier].0);
            }
        },
        None => {
            assert forall|position: int| 0 <= position < entries.len() implies (
            #[trigger] entries[position]).0 != key by {
                assert(names.contains(names[position]));
            }
        },
    }
}

/// In a table of distinct names every entry is found: its name resolves to
/// its handle, wherever it stands.
pub proof fn distinct_names_resolve_to_their_entry(entries: Entries, position: int)
    requires
        distinct_names(entries),
        0 <= position < entries.len(),
    ensures
        handle_of(entries, entries[position].0) == Some(entries[position].1),
{
    let key = entries[position].0;
    let names = names_of(entries);
    assert(names[position] == key);
    names.index_of_first_ensures(key);
}

/// An action set that is not registered ends the resolution before anything
/// is asked of the runtime, whatever the action's name is.
pub proof fn unknown_action_set_gives_no_result(
    action_sets: Entries,
    actions: Entries,
    active_sets: Seq<u64>,
    action_set_key: Seq<char>,
    action_key: Seq<char>,
)
    requires
        !names_of(action_sets).contains(action_set_key),
    ensures
        begin_spec(action_sets, actions, active_sets, action_set_key, action_key).1
            == StepView::Finished(Err(ResolveError::UnknownActionSet)),
{
    names_of(action_sets).index_of_first_ensures(action_set_key);
}

/// No bound origin is zero, every entry of the runtime's list that is not
/// zero is a bound origin, and the bound origins are no more than the entries.
pub proof fn bound_origins_hold_no_zero(reported: Seq<u64>)
    ensures
        forall|i: int|
            0 <= i < bound_origins(reported).len() ==> #[trigger] bound_origins(reported)[i] != 0,
        forall|i: int|
            0 <= i < reported.len() && reported[i] != 0 ==> bound_origins(reported).contains(
                #[trigger] reported[i],
            ),
        bound_origins(reported).len() <= reported.len(),
{
    reported.lemma_filter_len(is_bound());
    assert forall|i: int| 0 <= i < bound_origins(reported).len() implies #[trigger] bound_origins(
        reported,
    )[i] != 0 by {
        reported.lemma_filter_pred(is_bound(), i);
    }
    assert forall|i: int| 0 <= i < reported.len() && reported[i] != 0 implies bound_origins(
        reported,
    ).contains(#[trigger] reported[i]) by {
        reported.lemma_filter_contains(is_bound(), i);
    }
}

/// The bound origins stand in the order of the runtime's list: those of a
/// list are those of its front, followed by those of its back.
pub proof fn bound_origins_keep_order(front: Seq<u64>, back: Seq<u64>)
    ensures
        bound_origins(front + back) == bound_origins(front) + bound_origins(back),
{
    Seq::filter_distributes_over_add(front, back, is_bound());
}

/// The names that the runtime gave are no more than the queries, and where
/// they are as many, no query failed: each name stands at the position of the
/// query that it answers.
pub proof fn granted_keeps_positions(answers: Seq<Option<Seq<char>>>)
    ensures
        granted(answers).len() <= answers.len(),
        granted(answers).len() == answers.len() ==> forall|i: int|
            0 <= i < answers.len() ==> answers[i] == Some(granted(answers)[i]),
    decreases answers.len(),
{
    if answers.len() > 0 {
        let front = answers.drop_last();
        granted_keeps_positions(front);
        if granted(answers).len() == answers.len() {
            assert forall|i: int| 0 <= i < answers.len() implies answers[i] == Some(
                granted(answers)[i],
            ) by {
                if i < front.len() {
                    assert(answers[i] == front[i]);
                }
            }
        }
    }
}

/// Every record is made from one position: the names are the runtime's answers
/// for the origin at the record's position, and the other fields are the
/// decoded buffers of the binding information at that position. The records
/// stand in the order of the bound origins, one for each.
pub proof fn records_follow_origin_order(answers: Transcript, records: Seq<BindingOriginText>)
    requires
        answers.wf(),
        answers.outcome() == Ok::<Seq<BindingOriginText>, ResolveError>(records),
    ensures
        answers.origins is Some,
        answers.binding_info is Some,
        records.len() == answers.bound().len(),
        answers.binding_info->0.len() == answers.bound().len(),
        forall|i: int|
            #![trigger records[i]]
            0 <= i < records.len() ==> {
                let info = answers.binding_info->0[i];
                &&& answers.controller_types[i] == Some(records[i].localized_controller_type)
                &&& answers.hands[i] == Some(records[i].localized_hand)
                &&& answers.input_sources[i] == Some(records[i].localized_input_source)
                &&& decoded_text(info.device_path_name) == Some(records[i].device_path_name)
                &&& decoded_text(info.input_path_name) == Some(records[i].input_path_name)
                &&& decoded_text(info.mode_name) == Some(records[i].mode_name)
                &&& decoded_text(info.slot_name) == Some(records[i].slot_name)
                &&& decoded_text(info.input_source_type) == Some(records[i].input_source_type)
            },
{
    granted_keeps_positions(answers.controller_types);
    granted_keeps_positions(answers.hands);
    granted_keeps_positions(answers.input_sources);
    let infos = answers.binding_info->0;
    assert forall|i: int| #![trigger records[i]] 0 <= i < records.len() implies decodable(
        infos[i],
    ) by {}
}

/// Where the runtime fails a name query, the lists no longer have one entry
/// for each origin, and nothing is assembled: no record is made of entries
/// that moved up.
pub proof fn failed_name_query_gives_no_record(answers: Transcript, position: int)
    requires
        answers.wf(),
        0 <= position < answers.bound().len(),
        answers.controller_types[position] is None || answers.hands[position] is None
            || answers.input_sources[position] is None,
    ensures
        answers.outcome() is Err,
        answers.connected && answers.refreshed && answers.binding_info is Some
            ==> answers.outcome() == Err::<Seq<BindingOriginText>, ResolveError>(
            ResolveError::Misaligned,
        ),
{
    granted_keeps_positions(answers.controller_types);
    granted_keeps_positions(answers.hands);
    granted_keeps_positions(answers.input_sources);
}

/// Lists of other lengths than the number of origins are never assembled.
pub proof fn misaligned_lists_give_no_record(
    count: nat,
    controller_types: Seq<Seq<char>>,
    hands: Seq<Seq<char>>,
    input_sources: Seq<Seq<char>>,
    binding_infos: Seq<RawBindingBytes>,
)
    ensures
        assembled(count, controller_types, hands, input_sources, binding_infos) is Ok <==> aligned(
            count,
            controller_types,
            hands,
            input_sources,
            binding_infos,
        ) && forall|i: int| 0 <= i < count ==> decodable(#[trigger] binding_infos[i]),
        !aligned(count, controller_types, hands, input_sources, binding_infos) ==> assembled(
            count,
            controller_types,
            hands,
            input_sources,
            binding_infos,
        ) == Err::<Seq<BindingOriginText>, ResolveError>(ResolveError::Misaligned),
{
}

/// An action without a bound origin resolves to no records, and not to an
/// error, where the runtime is connected and answers the refresh, the origins
/// and the binding information, the last with no entry.
pub proof fn no_bound_origin_gives_empty(answers: Transcript)
    requires
        answers.wf(),
        answers.connected,
        answers.refreshed,
        answers.origins is Some,
        answers.bound().len() == 0,
        answers.binding_info matches Some(infos) && infos.len() == 0,
    ensures
        answers.outcome() == Ok::<Seq<BindingOriginText>, ResolveError>(Seq::empty()),
{
    assert(answers.outcome()->Ok_0 =~= Seq::<BindingOriginText>::empty());
}

/// A step keeps the state's invariant, and a name query is about the origin
/// at the cursor, which is a bound origin and not zero.
pub proof fn name_queries_are_about_bound_origins(state: ResolutionView, response: ResponseView)
    requires
        state.wf(),
    ensures
        advance_spec(state, response).0.wf(),
        advance_spec(state, response).1 matches StepView::Ask(
            RequestView::LocalizedName { origin, part },
        ) ==> {
            let after = advance_spec(state, response).0;
            &&& after.phase == Phase::Naming(part)
            &&& after.cursor < after.origins.len()
            &&& origin == after.origins[after.cursor as int]
            &&& origin != 0
        },
{
    if state.phase is ListingOrigins {
        if let ResponseView::Origins(reported) = response {
            bound_origins_hold_no_zero(reported);
        }
    }
}

/// A resolution changes neither the registry nor the active sets, and its
/// outcome is decided by the state it starts in and the runtime's answers:
/// two resolutions that start alike and get the same answers end alike.
pub proof fn same_answers_same_outcome(
    first: ResolutionView,
    second: ResolutionView,
    first_answers: Seq<ResponseView>,
    second_answers: Seq<ResponseView>,
)
    requires
        first == second,
        first_answers.len() == second_answers.len(),
        forall|i: int| 0 <= i < first_answers.len() ==> first_answers[i] == second_answers[i],
    ensures
        run(first, first_answers, 0) == run(second, second_answers, 0),
{
    assert(first_answers =~= second_answers);
}

/// The names of one part that a resolution holds.
spec fn names_in(state: ResolutionView, part: NamePart) -> Seq<Seq<char>> {
    match part {
        NamePart::ControllerType => state.controller_types,
        NamePart::Hand => state.hands,
        NamePart::InputSource => state.input_sources,
    }
}

/// The state with other names of one part.
spec fn with_names(state: ResolutionView, part: NamePart, names: Seq<Seq<char>>) -> ResolutionView {
    match part {
        NamePart::ControllerType => ResolutionView { controller_types: names, ..state },
        NamePart::Hand => ResolutionView { hands: names, ..state },
        NamePart::InputSource => ResolutionView { input_sources: names, ..state },
    }
}

/// The state after the last answer of a pass that gave `names`.
spec fn pass_end(state: ResolutionView, part: NamePart, names: Seq<Seq<char>>) -> ResolutionView {
    with_names(
        ResolutionView { cursor: (state.origins.len() - 1) as nat, ..state },
        part,
        names,
    ).after_name(part).0
}

proof fn lemma_granted_next(answers: Seq<Option<Seq<char>>>, position: int)
    requires
        0 <= position < answers.len(),
    ensures
        granted(answers.take(position + 1)) == match answers[position] {
            Some(name) => granted(answers.take(position)).push(name),
            None => granted(answers.take(position)),
        },
{
    assert(answers.take(position + 1).drop_last() =~= answers.take(position));
}

/// From any point of a pass on, the answers of the pass lead to its end, with
/// the names that the runtime gave in the pass.
proof fn lemma_pass(
    state: ResolutionView,
    responses: Seq<ResponseView>,
    base: int,
    part: NamePart,
    answers: Seq<Option<Seq<char>>>,
)
    requires
        state.phase == Phase::Naming(part),
        state.cursor < state.origins.len(),
        answers.len() == state.origins.len(),
        0 <= base,
        base + answers.len() <= responses.len(),
        forall|j: int| 0 <= j < answers.len() ==> responses[base + j] == name_answer(answers[j]),
        names_in(state, part) == granted(answers.take(state.cursor as int)),
    ensures
        run(state, responses, base + state.cursor) == run(
            pass_end(state, part, granted(answers)),
            responses,
            base + answers.len(),
        ),
    decreases answers.len() - state.cursor,
{
    // The answer at the cursor adds its name, if it is one, to the names of
    // the part; the next answer belongs to the state that follows.
    let position = state.cursor as int;
    let (after, step) = advance_spec(state, responses[base + position]);
    lemma_granted_next(answers, position);
    let named = with_names(state, part, granted(answers.take(position + 1)));
    assert((after, step) == named.after_name(part));
    assert(run(state, responses, base + position) == run(after, responses, base + position + 1));
    if position + 1 < answers.len() {
        lemma_pass(after, responses, base, part, answers);
        assert(pass_end(after, part, granted(answers)) == pass_end(state, part, granted(answers)));
    } else {
        assert(answers.take(position + 1) =~= answers);
        assert(after == pass_end(state, part, granted(answers)));
    }
}

/// The query that follows the last answer of a pass that gave `names`.
spec fn query_after_pass(state: ResolutionView, part: NamePart, names: Seq<Seq<char>>) -> RequestView {
    with_names(
        ResolutionView { cursor: (state.origins.len() - 1) as nat, ..state },
        part,
        names,
    ).after_name(part).1->Ask_0
}

/// From any point of a pass on, the queries are those for the origins behind
/// the cursor, in their order, and then what follows the pass.
proof fn lemma_pass_queries(
    state: ResolutionView,
    responses: Seq<ResponseView>,
    base: int,
    part: NamePart,
    answers: Seq<Option<Seq<char>>>,
)
    requires
        state.phase == Phase::Naming(part),
        state.cursor < state.origins.len(),
        answers.len() == state.origins.len(),
        0 <= base,
        base + answers.len() <= responses.len(),
        forall|j: int| 0 <= j < answers.len() ==> responses[base + j] == name_answer(answers[j]),
        names_in(state, part) == granted(answers.take(state.cursor as int)),
    ensures
        asked(state, responses, base + state.cursor) == name_queries(state.origins, part).subrange(
            state.cursor as int + 1,
            state.origins.len() as int,
        ) + seq![query_after_pass(state, part, granted(answers))] + asked(
            pass_end(state, part, granted(answers)),
            responses,
            base + answers.len(),
        ),
    decreases answers.len() - state.cursor,
{
    let position = state.cursor as int;
    let count = answers.len() as int;
    let (after, step) = advance_spec(state, responses[base + position]);
    lemma_granted_next(answers, position);
    let named = with_names(state, part, granted(answers.take(position + 1)));
    assert((after, step) == named.after_name(part));
    assert(asked(state, responses, base + position) == seq![step->Ask_0] + asked(
        after,
        responses,
        base + position + 1,
    ));
    let queries = name_queries(state.origins, part);
    if position + 1 < count {
        lemma_pass_queries(after, responses, base, part, answers);
        assert(pass_end(after, part, granted(answers)) == pass_end(state, part, granted(answers)));
        assert(query_after_pass(after, part, granted(answers)) == query_after_pass(
            state,
            part,
            granted(answers),
        ));
        assert(step->Ask_0 == queries[position + 1]);
        assert(queries.subrange(position + 1, count) =~= seq![queries[position + 1]]
            + queries.subrange(position + 2, count));
    } else {
        assert(answers.take(position + 1) =~= answers);
        assert(after == pass_end(state, part, granted(answers)));
        assert(step->Ask_0 == query_after_pass(state, part, granted(answers)));
        assert(queries.subrange(position + 1, count) =~= Seq::<RequestView>::empty());
    }
}

/// A resolution puts its queries in the order of the algorithm: after the
/// connection check the refresh over all active sets, the origins of the
/// action, then for the bound origins in their order the controller types,
/// the hands and the input sources, and at last the binding information. A
/// query that ends the resolution is the last.
pub proof fn queries_follow_algorithm(start: ResolutionView, answers: Transcript)
    requires
        start.phase == Phase::Connecting,
        start.controller_types.len() == 0,
        start.hands.len() == 0,
        start.input_sources.len() == 0,
        answers.wf(),
    ensures
        asked(start, answers.script(), 0) == answers.queries(
            start.active_sets,
            start.action_set,
            start.action,
        ),
{
    let script = answers.script();
    let count = answers.bound().len() as int;
    let expected = answers.queries(start.active_sets, start.action_set, start.action);
    lemma_script_positions(answers);
    assert(start.controller_types =~= Seq::empty());
    assert(start.hands =~= Seq::empty());
    assert(start.input_sources =~= Seq::empty());
    let (refreshing, refresh) = advance_spec(start, script[0]);
    let (listing, origins) = advance_spec(refreshing, script[1]);
    let (listed, first) = advance_spec(listing, script[2]);
    if !answers.connected {
        assert(asked(start, script, 0) =~= expected);
    } else if !answers.refreshed {
        assert(asked(start, script, 0) == seq![refresh->Ask_0] + asked(refreshing, script, 1));
        assert(asked(refreshing, script, 1) =~= Seq::<RequestView>::empty());
        assert(asked(start, script, 0) =~= expected);
    } else if answers.origins is None {
        assert(asked(start, script, 0) == seq![refresh->Ask_0] + asked(refreshing, script, 1));
        assert(asked(refreshing, script, 1) == seq![origins->Ask_0] + asked(listing, script, 2));
        assert(asked(listing, script, 2) =~= Seq::<RequestView>::empty());
        assert(asked(start, script, 0) =~= expected);
    } else {
        assert(asked(start, script, 0) == seq![refresh->Ask_0] + asked(refreshing, script, 1));
        assert(asked(refreshing, script, 1) == seq![origins->Ask_0] + asked(listing, script, 2));
        assert(asked(listing, script, 2) == seq![first->Ask_0] + asked(listed, script, 3));
        assert(listed.origins == answers.bound());
        let last = RequestView::BindingInfo { action: start.action };
        if count == 0 {
            assert(asked(listed, script, 3) =~= Seq::<RequestView>::empty());
            assert(first->Ask_0 == last);
            assert(asked(start, script, 0) =~= expected);
        } else {
            assert(answers.controller_types.take(0) =~= Seq::empty());
            assert(answers.hands.take(0) =~= Seq::empty());
            assert(answers.input_sources.take(0) =~= Seq::empty());
            let typed = pass_end(
                listed,
                NamePart::ControllerType,
                granted(answers.controller_types),
            );
            let handed = pass_end(typed, NamePart::Hand, granted(answers.hands));
            let named = pass_end(handed, NamePart::InputSource, granted(answers.input_sources));
            lemma_pass_queries(listed, script, 3, NamePart::ControllerType, answers.controller_types);
            lemma_pass_queries(typed, script, 3 + count, NamePart::Hand, answers.hands);
            lemma_pass_queries(
                handed,
                script,
                3 + 2 * count,
                NamePart::InputSource,
                answers.input_sources,
            );
            assert(asked(named, script, 3 + 3 * count) =~= Seq::<RequestView>::empty());
            let bound = answers.bound();
            let types = name_queries(bound, NamePart::ControllerType);
            let hands = name_queries(bound, NamePart::Hand);
            let sources = name_queries(bound, NamePart::InputSource);
            assert(first->Ask_0 == types[0]);
            assert(query_after_pass(
                listed,
                NamePart::ControllerType,
                granted(answers.controller_types),
            ) == hands[0]);
            assert(query_after_pass(typed, NamePart::Hand, granted(answers.hands)) == sources[0]);
            assert(query_after_pass(
                handed,
                NamePart::InputSource,
                granted(answers.input_sources),
            ) == last);
            assert(types =~= seq![types[0]] + types.subrange(1, count));
            assert(hands =~= seq![hands[0]] + hands.subrange(1, count));
            assert(sources =~= seq![sources[0]] + sources.subrange(1, count));
            assert(asked(start, script, 0) =~= expected);
        }
    }
}

/// Where each answer of a transcript stands in its script.
proof fn lemma_script_positions(answers: Transcript)
    requires
        answers.wf(),
    ensures
        answers.script().len() == 3 * answers.bound().len() + 4,
        answers.script()[0] == answers.connect_answer(),
        answers.script()[1] == answers.refresh_answer(),
        answers.script()[2] == answers.origins_answer(),
        forall|j: int|
            0 <= j < answers.bound().len() ==> answers.script()[3 + j] == name_answer(
                answers.controller_types[j],
            ),
        forall|j: int|
            0 <= j < answers.bound().len() ==> answers.script()[3 + answers.bound().len() + j]
                == name_answer(answers.hands[j]),
        forall|j: int|
            0 <= j < answers.bound().len() ==> answers.script()[3 + 2 * answers.bound().len() + j]
                == name_answer(answers.input_sources[j]),
        answers.script()[3 + 3 * answers.bound().len() as int] == answers.binding_info_answer(),
{
}

/// A resolution that is handed the runtime's answers in the order in which it
/// asks for them ends with the outcome that these answers give.
pub proof fn resolution_follows_transcript(start: ResolutionView, answers: Transcript)
    requires
        start.phase == Phase::Connecting,
        start.controller_types.len() == 0,
        start.hands.len() == 0,
        start.input_sources.len() == 0,
        answers.wf(),
    ensures
        run(start, answers.script(), 0) == Some(answers.outcome()),
{
    let script = answers.script();
    let count = answers.bound().len() as int;
    lemma_script_positions(answers);
    assert(start.controller_types =~= Seq::empty());
    assert(start.hands =~= Seq::empty());
    assert(start.input_sources =~= Seq::empty());
    let refreshing = advance_spec(start, script[0]).0;
    let listing = advance_spec(refreshing, script[1]).0;
    let listed = advance_spec(listing, script[2]).0;
    if !answers.connected {
        assert(run(start, script, 0) == Some(answers.outcome()));
    } else if !answers.refreshed {
        assert(run(start, script, 0) == run(refreshing, script, 1));
        assert(run(refreshing, script, 1) == Some(answers.outcome()));
    } else if answers.origins is None {
        assert(run(start, script, 0) == run(refreshing, script, 1));
        assert(run(refreshing, script, 1) == run(listing, script, 2));
        assert(run(listing, script, 2) == Some(answers.outcome()));
    } else {
        assert(run(start, script, 0) == run(refreshing, script, 1));
        assert(run(refreshing, script, 1) == run(listing, script, 2));
        assert(run(listing, script, 2) == run(listed, script, 3));
        assert(listed.origins == answers.bound());
        if count == 0 {
            assert(answers.controller_types =~= Seq::empty());
            assert(answers.hands =~= Seq::empty());
            assert(answers.input_sources =~= Seq::empty());
            assert(run(listed, script, 3) == Some(answers.outcome()));
        } else {
            // One pass over the origins for each part of the name.
            assert(answers.controller_types.take(0) =~= Seq::empty());
            assert(answers.hands.take(0) =~= Seq::empty());
            assert(answers.input_sources.take(0) =~= Seq::empty());
            let typed = pass_end(
                listed,
                NamePart::ControllerType,
                granted(answers.controller_types),
            );
            let handed = pass_end(typed, NamePart::Hand, granted(answers.hands));
            let named = pass_end(handed, NamePart::InputSource, granted(answers.input_sources));
            lemma_pass(listed, script, 3, NamePart::ControllerType, answers.controller_types);
            lemma_pass(typed, script, 3 + count, NamePart::Hand, answers.hands);
            lemma_pass(handed, script, 3 + 2 * count, NamePart::InputSource, answers.input_sources);
            assert(run(named, script, 3 + 3 * count) == Some(answers.outcome()));
        }
    }
}

/// The same, from the start: with both names registered, a resolution asks
/// first for the connection, then puts the queries of the algorithm with the
/// handles of the two names, and ends with the outcome that the runtime's
/// answers give.
pub proof fn registered_names_resolve_by_transcript(
    action_sets: Entries,
    actions: Entries,
    active_sets: Seq<u64>,
    action_set_key: Seq<char>,
    action_key: Seq<char>,
    answers: Transcript,
)
    requires
        names_of(action_sets).contains(action_set_key),
        names_of(actions).contains(action_key),
        answers.wf(),
    ensures
        handle_of(action_sets, action_set_key) is Some,
        handle_of(actions, action_key) is Some,
        begin_spec(action_sets, actions, active_sets, action_set_key, action_key).1
            == StepView::Ask(RequestView::Connect),
        asked(
            begin_spec(action_sets, actions, active_sets, action_set_key, action_key).0,
            answers.script(),
            0,
        ) == answers.queries(
            active_sets,
            handle_of(action_sets, action_set_key)->0,
            handle_of(actions, action_key)->0,
        ),
        run(
            begin_spec(action_sets, actions, active_sets, action_set_key, action_key).0,
            answers.script(),
            0,
        ) == Some(answers.outcome()),
{
    names_of(action_sets).index_of_first_ensures(action_set_key);
    names_of(actions).index_of_first_ensures(action_key);
    let start = begin_spec(action_sets, actions, active_sets, action_set_key, action_key).0;
    resolution_follows_transcript(start, answers);
    queries_follow_algorithm(start, answers);
}

} // verus!
