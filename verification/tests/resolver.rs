use binding_origins::error::{QueryKind, ResolveError};
use binding_origins::record::{BindingOriginData, RawBindingInfo};
use binding_origins::registry::HandleTable;
use binding_origins::resolver::{NamePart, Request, Resolution, Response, Step};

/// A runtime that answers from what it was told beforehand, and keeps the
/// queries that it got.
struct Scripted {
    connected: bool,
    refresh_fails: bool,
    origins: Option<Vec<u64>>,
    nameless: Vec<(u64, NamePart)>,
    binding_info: Option<Vec<RawBindingInfo>>,
    asked: Vec<Request>,
}

fn buffer(text: &str, capacity: usize) -> Vec<u8> {
    let mut bytes = text.as_bytes().to_vec();
    while bytes.len() < capacity {
        bytes.push(0);
    }
    bytes
}

fn info(tag: &str) -> RawBindingInfo {
    RawBindingInfo {
        device_path_name: buffer(&format!("/user/hand/{tag}"), 128),
        input_path_name: buffer(&format!("/user/hand/{tag}/input/grip"), 128),
        mode_name: buffer("button", 128),
        slot_name: buffer("click", 128),
        input_source_type: buffer("grip", 32),
    }
}

fn name_of(origin: u64, part: NamePart) -> String {
    match part {
        NamePart::ControllerType => format!("controller of {origin}"),
        NamePart::Hand => format!("hand of {origin}"),
        NamePart::InputSource => format!("source of {origin}"),
    }
}

fn runtime(origins: Vec<u64>, binding_info: Vec<RawBindingInfo>) -> Scripted {
    Scripted {
        connected: true,
        refresh_fails: false,
        origins: Some(origins),
        nameless: vec![],
        binding_info: Some(binding_info),
        asked: vec![],
    }
}

fn answer(runtime: &mut Scripted, request: Request) -> Response {
    runtime.asked.push(request.clone());
    match request {
        Request::Connect => {
            if runtime.connected {
                Response::Ready
            } else {
                Response::Unavailable
            }
        }
        Request::Refresh { .. } => {
            if runtime.refresh_fails {
                Response::Failed
            } else {
                Response::Ready
            }
        }
        Request::Origins { .. } => match &runtime.origins {
            Some(origins) => Response::Origins(origins.clone()),
            None => Response::Failed,
        },
        Request::LocalizedName { origin, part } => {
            if runtime.nameless.contains(&(origin, part)) {
                Response::Failed
            } else {
                Response::LocalizedName(name_of(origin, part))
            }
        }
        Request::BindingInfo { .. } => match &runtime.binding_info {
            Some(infos) => Response::BindingInfo(infos.clone()),
            None => Response::Failed,
        },
    }
}

fn tables() -> (HandleTable, HandleTable) {
    let mut action_sets = HandleTable::new();
    action_sets.register("default".to_string(), 1);
    let mut actions = HandleTable::new();
    actions.register("squeeze".to_string(), 7);
    (action_sets, actions)
}

fn resolve(
    runtime: &mut Scripted,
    active_sets: Vec<u64>,
    action_set_key: &str,
    action_key: &str,
) -> Result<Vec<BindingOriginData>, ResolveError> {
    let (action_sets, actions) = tables();
    let (mut state, mut step) = Resolution::begin(
        &action_sets,
        &actions,
        active_sets,
        &action_set_key.to_string(),
        &action_key.to_string(),
    );
    loop {
        match step {
            Step::Finished(outcome) => return outcome,
            Step::Ask(request) => {
                let response = answer(runtime, request);
                (state, step) = state.advance(response);
            }
        }
    }
}

fn record(origin: u64, tag: &str) -> BindingOriginData {
    BindingOriginData {
        localized_controller_type: format!("controller of {origin}"),
        localized_hand: format!("hand of {origin}"),
        localized_input_source: format!("source of {origin}"),
        device_path_name: format!("/user/hand/{tag}"),
        input_path_name: format!("/user/hand/{tag}/input/grip"),
        mode_name: "button".to_string(),
        slot_name: "click".to_string(),
        input_source_type: "grip".to_string(),
    }
}

#[test]
fn unknown_action_set_gives_no_result_whatever_the_action() {
    for action_key in ["squeeze", "unknown", ""] {
        let mut rt = runtime(vec![42], vec![info("left")]);
        assert_eq!(
            resolve(&mut rt, vec![1], "missing", action_key),
            Err(ResolveError::UnknownActionSet)
        );
        assert!(rt.asked.is_empty());
    }
}

#[test]
fn unknown_action_gives_no_result() {
    let mut rt = runtime(vec![42], vec![info("left")]);
    assert_eq!(resolve(&mut rt, vec![1], "default", "pinch"), Err(ResolveError::UnknownAction));
    assert!(rt.asked.is_empty());
}

#[test]
fn action_set_name_is_not_an_action_name() {
    let mut rt = runtime(vec![42], vec![info("left")]);
    assert_eq!(
        resolve(&mut rt, vec![1], "squeeze", "default"),
        Err(ResolveError::UnknownActionSet)
    );
}

#[test]
fn absent_runtime_gives_no_result_after_the_connection_check() {
    let mut rt = runtime(vec![42], vec![info("left")]);
    rt.connected = false;
    assert_eq!(
        resolve(&mut rt, vec![1], "default", "squeeze"),
        Err(ResolveError::RuntimeUnavailable)
    );
    assert_eq!(rt.asked, vec![Request::Connect]);
}

#[test]
fn two_bound_origins_among_zeros_give_two_records_in_order() {
    let mut rt = runtime(vec![0, 42, 0, 99], vec![info("left"), info("right")]);
    let records = resolve(&mut rt, vec![1], "default", "squeeze").unwrap();
    assert_eq!(records, vec![record(42, "left"), record(99, "right")]);
}

#[test]
fn queries_come_in_the_order_of_the_algorithm() {
    let mut rt = runtime(vec![0, 42, 0, 99], vec![info("left"), info("right")]);
    resolve(&mut rt, vec![1], "default", "squeeze").unwrap();
    let name = |origin, part| Request::LocalizedName { origin, part };
    assert_eq!(
        rt.asked,
        vec![
            Request::Connect,
            Request::Refresh { active_sets: vec![1] },
            Request::Origins { action_set: 1, action: 7 },
            name(42, NamePart::ControllerType),
            name(99, NamePart::ControllerType),
            name(42, NamePart::Hand),
            name(99, NamePart::Hand),
            name(42, NamePart::InputSource),
            name(99, NamePart::InputSource),
            Request::BindingInfo { action: 7 },
        ]
    );
}

#[test]
fn filtered_origins_are_held_by_the_resolution() {
    let (action_sets, actions) = tables();
    let (state, _) = Resolution::begin(
        &action_sets,
        &actions,
        vec![1],
        &"default".to_string(),
        &"squeeze".to_string(),
    );
    assert!(state.origins().is_empty());
    let (state, _) = state.advance(Response::Ready);
    let (state, _) = state.advance(Response::Ready);
    let (state, step) = state.advance(Response::Origins(vec![0, 42, 0, 99]));
    assert_eq!(state.origins(), &vec![42, 99]);
    assert_eq!(
        step,
        Step::Ask(Request::LocalizedName { origin: 42, part: NamePart::ControllerType })
    );
}

#[test]
fn refresh_covers_all_active_sets() {
    let mut rt = runtime(vec![42], vec![info("left")]);
    resolve(&mut rt, vec![3, 1, 2], "default", "squeeze").unwrap();
    assert_eq!(rt.asked[1], Request::Refresh { active_sets: vec![3, 1, 2] });
    let mut rt = runtime(vec![42], vec![info("left")]);
    resolve(&mut rt, vec![], "default", "squeeze").unwrap();
    assert_eq!(rt.asked[1], Request::Refresh { active_sets: vec![] });
}

#[test]
fn no_bound_origin_gives_empty_result() {
    for origins in [vec![], vec![0], vec![0, 0, 0]] {
        let mut rt = runtime(origins, vec![]);
        assert_eq!(resolve(&mut rt, vec![1], "default", "squeeze"), Ok(vec![]));
        assert_eq!(
            rt.asked,
            vec![
                Request::Connect,
                Request::Refresh { active_sets: vec![1] },
                Request::Origins { action_set: 1, action: 7 },
                Request::BindingInfo { action: 7 },
            ]
        );
    }
}

#[test]
fn failed_refresh_is_fatal() {
    let mut rt = runtime(vec![42], vec![info("left")]);
    rt.refresh_fails = true;
    assert_eq!(
        resolve(&mut rt, vec![1], "default", "squeeze"),
        Err(ResolveError::QueryFailed(QueryKind::Refresh))
    );
    assert_eq!(rt.asked.len(), 2);
}

#[test]
fn failed_origin_query_is_fatal() {
    let mut rt = runtime(vec![42], vec![info("left")]);
    rt.origins = None;
    assert_eq!(
        resolve(&mut rt, vec![1], "default", "squeeze"),
        Err(ResolveError::QueryFailed(QueryKind::Origins))
    );
    assert_eq!(rt.asked.len(), 3);
}

#[test]
fn failed_binding_info_query_is_fatal() {
    let mut rt = runtime(vec![42], vec![info("left")]);
    rt.binding_info = None;
    assert_eq!(
        resolve(&mut rt, vec![1], "default", "squeeze"),
        Err(ResolveError::QueryFailed(QueryKind::BindingInfo))
    );
    let mut rt = runtime(vec![0], vec![]);
    rt.binding_info = None;
    assert_eq!(
        resolve(&mut rt, vec![1], "default", "squeeze"),
        Err(ResolveError::QueryFailed(QueryKind::BindingInfo))
    );
}

#[test]
fn failed_name_query_is_not_retried_and_breaks_alignment() {
    for part in [NamePart::ControllerType, NamePart::Hand, NamePart::InputSource] {
        for origin in [42, 99] {
            let mut rt = runtime(vec![42, 99], vec![info("left"), info("right")]);
            rt.nameless = vec![(origin, part)];
            assert_eq!(
                resolve(&mut rt, vec![1], "default", "squeeze"),
                Err(ResolveError::Misaligned)
            );
            assert_eq!(rt.asked.len(), 10);
        }
    }
}

#[test]
fn binding_info_of_another_length_is_refused() {
    let mut rt = runtime(vec![42, 99], vec![info("left")]);
    assert_eq!(resolve(&mut rt, vec![1], "default", "squeeze"), Err(ResolveError::Misaligned));
    let mut rt = runtime(vec![42], vec![info("left"), info("right")]);
    assert_eq!(resolve(&mut rt, vec![1], "default", "squeeze"), Err(ResolveError::Misaligned));
    let mut rt = runtime(vec![0], vec![info("left")]);
    assert_eq!(resolve(&mut rt, vec![1], "default", "squeeze"), Err(ResolveError::Misaligned));
}

#[test]
fn invalid_text_in_binding_info_is_fatal() {
    let mut broken = info("right");
    broken.input_source_type = vec![0xff; 32];
    let mut rt = runtime(vec![42, 99], vec![info("left"), broken]);
    assert_eq!(resolve(&mut rt, vec![1], "default", "squeeze"), Err(ResolveError::DecodeFailed));
}

#[test]
fn repeated_resolution_gives_equal_results() {
    let mut rt = runtime(vec![0, 42, 0, 99], vec![info("left"), info("right")]);
    let first = resolve(&mut rt, vec![1], "default", "squeeze");
    let asked_first = rt.asked.clone();
    rt.asked.clear();
    let second = resolve(&mut rt, vec![1], "default", "squeeze");
    assert_eq!(first, second);
    assert_eq!(asked_first, rt.asked);
    assert_eq!(first.unwrap().len(), 2);
}

#[test]
fn zero_is_never_asked_about() {
    let mut rt = runtime(vec![0, 0, 42, 0, 99, 0], vec![info("left"), info("right")]);
    let records = resolve(&mut rt, vec![1], "default", "squeeze").unwrap();
    assert_eq!(records.len(), 2);
    for request in &rt.asked {
        if let Request::LocalizedName { origin, .. } = request {
            assert_ne!(*origin, 0);
        }
    }
}

#[test]
fn origin_bound_twice_gives_two_records() {
    let mut rt = runtime(vec![42, 42], vec![info("left"), info("left")]);
    let records = resolve(&mut rt, vec![1], "default", "squeeze").unwrap();
    assert_eq!(records, vec![record(42, "left"), record(42, "left")]);
}

#[test]
fn answer_of_another_kind_ends_the_resolution() {
    let (action_sets, actions) = tables();
    let begin = || {
        Resolution::begin(
            &action_sets,
            &actions,
            vec![1],
            &"default".to_string(),
            &"squeeze".to_string(),
        )
    };
    let unexpected = Step::Finished(Err(ResolveError::UnexpectedResponse));
    let (state, step) = begin();
    assert_eq!(step, Step::Ask(Request::Connect));
    assert_eq!(state.advance(Response::Failed).1, unexpected);
    let (state, _) = begin();
    assert_eq!(state.advance(Response::Origins(vec![1])).1, unexpected);
    let (state, _) = begin();
    let (state, _) = state.advance(Response::Ready);
    assert_eq!(state.advance(Response::Unavailable).1, unexpected);
    let (state, _) = begin();
    let (state, _) = state.advance(Response::Ready);
    let (state, _) = state.advance(Response::Ready);
    assert_eq!(state.advance(Response::Ready).1, unexpected);
    let (state, _) = begin();
    let (state, _) = state.advance(Response::Ready);
    let (state, _) = state.advance(Response::Ready);
    let (state, _) = state.advance(Response::Origins(vec![42]));
    assert_eq!(state.advance(Response::BindingInfo(vec![])).1, unexpected);
}

#[test]
fn finished_resolution_takes_no_more_answers() {
    let (action_sets, actions) = tables();
    let (state, step) = Resolution::begin(
        &action_sets,
        &actions,
        vec![1],
        &"missing".to_string(),
        &"squeeze".to_string(),
    );
    assert_eq!(step, Step::Finished(Err(ResolveError::UnknownActionSet)));
    let (state, step) = state.advance(Response::Ready);
    assert_eq!(step, Step::Finished(Err(ResolveError::UnexpectedResponse)));
    let (_, step) = state.advance(Response::Unavailable);
    assert_eq!(step, Step::Finished(Err(ResolveError::UnexpectedResponse)));
}
