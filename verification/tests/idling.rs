use daydream_memory::idle::{
    require_object, Idle, IdleAction, IdleEvent, IdleRun, IdleStage, ToolError,
};
use daydream_memory::json::Json;

fn arguments(text: &str) -> serde_json::Value {
    serde_json::from_str(text).unwrap()
}

fn text(s: &str) -> Json {
    Json::Text(s.to_string())
}

fn begin() -> IdleRun {
    Idle.execute(&arguments(r#"{"reason": "无聊", "topic": "猫"}"#)).unwrap().0
}

fn run_to(stage: IdleStage) -> IdleRun {
    let mut run = begin();
    let events = vec![
        IdleEvent::AppReady,
        IdleEvent::CurrentRole(Some(7)),
        IdleEvent::Role(Ok(Some("小灵".to_string()))),
        IdleEvent::SystemPrompt(Some("你是小灵。".to_string())),
        IdleEvent::ModelReady,
    ];
    for event in events {
        if run.stage() == stage {
            break;
        }
        run.step(event);
    }
    assert_eq!(run.stage(), stage);
    run
}

fn failure(why: &str) -> IdleAction {
    IdleAction::Finish(Err(ToolError::Execution(why.to_string())))
}

#[test]
fn the_definition_asks_for_a_reason() {
    let definition = Idle.definition();
    assert_eq!(definition.name, "idle");
    assert_eq!(
        definition.description,
        "开始发呆。当你不想说话，或者想深度思考/回忆时，请使用此工具。"
    );
    let expected = arguments(
        r#"{
            "type": "object",
            "properties": {
                "reason": {"type": "string", "description": "发呆原因（如无聊，没事做），随便回答即可。可以加入发呆的具体内容，比如思考某个问题（如：想思考如何解决哥德巴赫猜想）。"},
                "topic": {"type": "string", "description": "想要思考的主题（可选），发呆时会回想起相关记忆"}
            },
            "required": ["reason"],
            "additionalProperties": false
        }"#,
    );
    assert_eq!(sorted(definition.parameters), sorted(Json::from_value(&expected)));
}

fn sorted(json: Json) -> Json {
    match json {
        Json::Object(members) => {
            let mut members: Vec<(String, Json)> =
                members.into_iter().map(|(k, v)| (k, sorted(v))).collect();
            members.sort_by(|a, b| a.0.cmp(&b.0));
            Json::Object(members)
        }
        other => other,
    }
}

#[test]
fn a_daydream_may_take_three_minutes() {
    assert_eq!(Idle.timeout_hint(), Some(180));
}

#[test]
fn arguments_must_be_an_object() {
    let refused = ToolError::InvalidArguments("idle 参数必须是 JSON object".to_string());
    for text in ["null", "[]", "\"reason\"", "1", "true"] {
        assert_eq!(Idle.execute(&arguments(text)), Err(ToolError::InvalidArguments(
            "idle 参数必须是 JSON object".to_string()
        )));
    }
    assert_eq!(require_object(&Json::Null, "idle"), Err(refused));
    let object = Json::Object(vec![("a".to_string(), Json::Null)]);
    assert_eq!(require_object(&object, "idle"), Ok(&vec![("a".to_string(), Json::Null)]));
    assert_eq!(
        require_object(&Json::Null, "other"),
        Err(ToolError::InvalidArguments("other 参数必须是 JSON object".to_string()))
    );
}

#[test]
fn a_reason_must_be_a_text() {
    for text in ["{}", r#"{"topic": "猫"}"#, r#"{"reason": 3}"#, r#"{"reason": null}"#] {
        assert_eq!(
            Idle.execute(&arguments(text)),
            Err(ToolError::InvalidArguments("idle 需要 reason".to_string()))
        );
    }
    assert!(Idle.execute(&arguments(r#"{"reason": ""}"#)).is_ok());
}

#[test]
fn a_run_begins_with_the_application() {
    let (run, action) = Idle.execute(&arguments(r#"{"reason": "无聊"}"#)).unwrap();
    assert_eq!(action, IdleAction::RequireApp);
    assert_eq!(run.stage(), IdleStage::App);
    let given = Json::Object(vec![("reason".to_string(), text("无聊"))]);
    assert_eq!(Idle.begin(&given), Ok((run, action)));
}

#[test]
fn an_unhindered_run_asks_in_order() {
    let mut run = begin();
    assert_eq!(run.step(IdleEvent::AppReady), IdleAction::ReadCurrentRole);
    assert_eq!(run.step(IdleEvent::CurrentRole(Some(7))), IdleAction::LoadRole(7));
    let named = IdleEvent::Role(Ok(Some("小灵".to_string())));
    assert_eq!(run.step(named), IdleAction::ReadSystemPrompt);
    let prompted = IdleEvent::SystemPrompt(Some("你是小灵。".to_string()));
    assert_eq!(run.step(prompted), IdleAction::TakeModel);
    assert_eq!(
        run.step(IdleEvent::ModelReady),
        IdleAction::Dream {
            display_name: "小灵".to_string(),
            character_prompt: "你是小灵。".to_string(),
            reason: "无聊".to_string(),
            topic: Some("猫".to_string()),
        }
    );
    let action = run.step(IdleEvent::Dreamt(Ok("独白".to_string())));
    assert_eq!(
        action,
        IdleAction::Finish(Ok(Json::Object(vec![
            (
                "info".to_string(),
                text("发呆已完成。用户不应看见你的内心独白 \"monologue\"，所以你不必汇报此次工具结果。"),
            ),
            ("monologue".to_string(), text("独白")),
        ])))
    );
    assert_eq!(run.stage(), IdleStage::Over);
}

#[test]
fn a_topic_that_is_no_text_is_left_out() {
    let mut run = Idle.execute(&arguments(r#"{"reason": "无聊", "topic": 3}"#)).unwrap().0;
    run.step(IdleEvent::AppReady);
    run.step(IdleEvent::CurrentRole(Some(1)));
    run.step(IdleEvent::Role(Ok(Some("a".to_string()))));
    run.step(IdleEvent::SystemPrompt(Some("b".to_string())));
    let action = run.step(IdleEvent::ModelReady);
    assert!(matches!(action, IdleAction::Dream { topic: None, .. }));
}

#[test]
fn a_refusal_of_the_application_is_handed_on() {
    let mut run = run_to(IdleStage::App);
    let refused = IdleEvent::AppRefused(ToolError::Execution("x".to_string()));
    assert_eq!(run.step(refused), failure("x"));
    assert_eq!(run.stage(), IdleStage::Over);
}

#[test]
fn no_role_no_daydream() {
    let mut run = run_to(IdleStage::CurrentRole);
    assert_eq!(run.step(IdleEvent::CurrentRole(None)), failure("当前没有对话角色"));
}

#[test]
fn a_role_that_cannot_be_loaded_fails() {
    let mut run = run_to(IdleStage::Role);
    let action = run.step(IdleEvent::Role(Err("db".to_string())));
    assert_eq!(action, failure("获取当前角色失败: db"));
}

#[test]
fn a_role_without_a_name_fails() {
    let mut run = run_to(IdleStage::Role);
    assert_eq!(run.step(IdleEvent::Role(Ok(None))), failure("当前角色没有展示名"));
}

#[test]
fn a_role_without_a_prompt_fails() {
    let mut run = run_to(IdleStage::SystemPrompt);
    assert_eq!(run.step(IdleEvent::SystemPrompt(None)), failure("当前角色没有 system_prompt"));
}

#[test]
fn without_a_dialogue_model_it_fails() {
    let mut run = run_to(IdleStage::Model);
    assert_eq!(run.step(IdleEvent::NoModel), failure("LLM 未配置"));
}

#[test]
fn a_failed_daydream_fails_the_tool() {
    let mut run = run_to(IdleStage::Dream);
    let action = run.step(IdleEvent::Dreamt(Err("reason 不能为空".to_string())));
    assert_eq!(action, failure("发呆失败: reason 不能为空"));
}
