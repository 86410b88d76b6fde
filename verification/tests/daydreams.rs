use daydream_memory::daydream::{
    daydream, gather_material, write_extraction_messages, write_monologue_prompt, ChatRecord,
    Daydream, DaydreamAction, DaydreamError, DaydreamEvent, LlmMessage, Speaker, Stage,
};
use daydream_memory::insight::{Insight, InsightReading};
use daydream_memory::memory::{MemoryType, WriteRequest};
use daydream_memory::moment::{LocalMoment, Moment};
use daydream_memory::text::join;
use daydream_memory::vector_memory::{ConsolidateCall, RangeCall, RecallCall, WriteCall};

const TASK: &str = r#"
接下来无论你产生任何回复都不会被用户观察到，不要对用户说话，不要做出行为或描述场景，只要思考就好。
接下来请自言自语（比如展望未来，复习刚才对话，或者理性分析），发散出大约 3000 字的文案以解决上述情况。
"#;

const EXTRACTION: &str = r#"
你是一个专业的【思绪分析专家】。接下来的消息中会包含你自己的思考内容，你的任务是抽取你自己思考内容中的结论。
请从你思考的长文段中抽取 3-10 条信息（如历史经过，个人观点等）
不要记录客观上不可察觉的信息（如思绪的过程）
使用第一人称，主观的语言。

以下是重要度的具体指引参考：
- 重要度 0.1-0.3：不太重要的信息，比如：事情经过，细节，暂时时效性的信息。
- 重要度 0.4-0.6：重要的信息，比如：重要的事情发生，个人观点，爱好，情绪表达等。
- 重要度 0.7-0.9：不能忽视的重要信息，比如：剧烈的情绪，关键的事件，学会的技能等。
越是复杂的信息，重要度越低。例如：
代码的实现 - 复杂，不重要
事件的过程 - 复杂，较不重要
出现的情绪 - 简单，重要


对于每条新信息，请按以下格式输出：
{
    "insights": [
        {
            "content": "<信息内容>",
            "importance": <重要度，0.0-1.0 之间的浮点数>
        },
        ... // 更多信息
    ]
}

"#;

fn record(content: &str, secs: i64) -> ChatRecord {
    ChatRecord {
        content: content.to_string(),
        created_at: LocalMoment::new(Moment::new(secs, 0).unwrap(), 0).unwrap(),
    }
}

fn message(speaker: Speaker, content: &str) -> LlmMessage {
    LlmMessage { speaker, content: content.to_string() }
}

fn begin(topic: Option<&str>) -> Daydream {
    daydream("小灵", "你是小灵。", "无聊", topic.map(str::to_string)).unwrap().0
}

fn musing() -> Daydream {
    let mut dream = begin(None);
    dream.step(DaydreamEvent::Records(vec![]));
    dream
}

fn extracting() -> Daydream {
    let mut dream = musing();
    dream.step(DaydreamEvent::Mused(Ok("独白".to_string())));
    dream
}

fn extraction() -> DaydreamAction {
    DaydreamAction::Extract(vec![
        message(Speaker::System, &format!("{}{}", EXTRACTION, "你是小灵。")),
        message(Speaker::User, "独白"),
        message(Speaker::Assistant, "{"),
    ])
}

fn finished() -> DaydreamAction {
    DaydreamAction::Finish(Ok("独白".to_string()))
}

fn opinion(content: &str, importance: f64) -> WriteCall {
    WriteCall {
        display_name: "小灵".to_string(),
        request: WriteRequest {
            summary: content.to_string(),
            memory_type: MemoryType::Opinion,
            importance: Some(importance.to_bits()),
            namespace: Some("insight".to_string()),
        },
    }
}

#[test]
fn no_reason_no_daydream() {
    let refused = daydream("a", "b", "", None);
    assert_eq!(refused, Err(DaydreamError::EmptyReason));
    assert_eq!(DaydreamError::EmptyReason.message(), "reason 不能为空");
}

#[test]
fn a_daydream_begins_with_the_latest_dialogue() {
    let (dream, action) = daydream("小灵", "p", "无聊", None).unwrap();
    assert_eq!(dream.stage(), Stage::Looking);
    assert_eq!(
        action,
        DaydreamAction::Look(RangeCall::Recent {
            display_name: "小灵".to_string(),
            max_nodes: 8,
            namespace: Some("chat_msg".to_string()),
        })
    );
}

#[test]
fn material_is_told_the_earliest_first() {
    let records = vec![record("后", 1_700_000_060), record("先", 1_700_000_000)];
    assert_eq!(
        gather_material(&records),
        "以下是你的发呆素材：\n先\n[时间：23/11/14，22:13]\n---\n后\n[时间：23/11/14，22:14]\n---"
    );
    assert_eq!(gather_material(&vec![]), "以下是你的发呆素材：");
}

#[test]
fn the_monologue_prompt_tells_who_why_and_of_what() {
    let task = format!("\n\n你正在自己无监管的思绪中发呆，原因是\"{}\"\n", "无聊") + TASK;
    assert_eq!(write_monologue_prompt("角色", "无聊", "素材"), format!("{}{}{}", "角色", task, "素材"));
}

#[test]
fn extraction_messages_end_with_the_start_of_the_answer() {
    assert_eq!(
        write_extraction_messages("角色", "独白"),
        vec![
            message(Speaker::System, &format!("{}{}", EXTRACTION, "角色")),
            message(Speaker::User, "独白"),
            message(Speaker::Assistant, "{"),
        ]
    );
}

#[test]
fn without_a_topic_it_muses_at_once() {
    let mut dream = begin(None);
    let action = dream.step(DaydreamEvent::Records(vec![record("先", 1_700_000_000)]));
    let material = gather_material(&vec![record("先", 1_700_000_000)]);
    let prompt = write_monologue_prompt("你是小灵。", "无聊", &material);
    assert_eq!(action, DaydreamAction::Muse(vec![message(Speaker::System, &prompt)]));
    assert_eq!(dream.stage(), Stage::Musing);
}

#[test]
fn a_topic_is_recalled_first() {
    let mut dream = begin(Some("猫"));
    let action = dream.step(DaydreamEvent::Records(vec![]));
    assert_eq!(
        action,
        DaydreamAction::Recall(RecallCall {
            display_name: "小灵".to_string(),
            max_nodes: 8,
            query: "猫".to_string(),
            context: None,
        })
    );
    assert_eq!(dream.stage(), Stage::Recalling);
    let action = dream.step(DaydreamEvent::Recalled(vec!["一".to_string(), "二".to_string()]));
    let prompt =
        write_monologue_prompt("你是小灵。", "无聊", "以下是你的发呆素材：一\n---\n二");
    assert_eq!(action, DaydreamAction::Muse(vec![message(Speaker::System, &prompt)]));
}

#[test]
fn without_a_model_there_is_no_monologue() {
    let mut dream = musing();
    let action = dream.step(DaydreamEvent::NoModel);
    assert_eq!(action, DaydreamAction::Finish(Err(DaydreamError::NoModel)));
    assert_eq!(DaydreamError::NoModel.message(), "发呆 LLM 槽位未配置！");
    assert_eq!(dream.stage(), Stage::Over);
}

#[test]
fn a_failing_model_ends_the_daydream() {
    let mut dream = musing();
    let action = dream.step(DaydreamEvent::Mused(Err("timeout".to_string())));
    let error = DaydreamError::ModelFailed("timeout".to_string());
    assert_eq!(error.message(), "timeout");
    assert_eq!(action, DaydreamAction::Finish(Err(error)));
}

#[test]
fn a_monologue_is_searched_for_insights() {
    let mut dream = musing();
    let action = dream.step(DaydreamEvent::Mused(Ok("独白".to_string())));
    assert_eq!(action, extraction());
    assert_eq!(dream.stage(), Stage::Extracting);
}

#[test]
fn insights_are_asked_for_five_times() {
    let mut dream = extracting();
    for _ in 0..4 {
        assert_eq!(dream.step(DaydreamEvent::Extracted(None)), extraction());
    }
    assert_eq!(dream.step(DaydreamEvent::Extracted(None)), finished());
    assert_eq!(dream.stage(), Stage::Over);
}

#[test]
fn an_empty_answer_ends_the_search() {
    let mut dream = extracting();
    assert_eq!(dream.step(DaydreamEvent::Extracted(Some(String::new()))), finished());
}

#[test]
fn an_answer_that_is_no_json_ends_the_search() {
    let mut dream = extracting();
    dream.step(DaydreamEvent::Extracted(None));
    assert_eq!(dream.step(DaydreamEvent::Extracted(Some("嗯".to_string()))), finished());
}

#[test]
fn an_answer_without_a_list_aborts() {
    let mut dream = extracting();
    let action = dream.step(DaydreamEvent::Extracted(Some("{}".to_string())));
    assert_eq!(action, DaydreamAction::Abort);
    assert_eq!(dream.stage(), Stage::Over);
}

#[test]
fn insights_are_remembered_and_settle() {
    let mut dream = extracting();
    let answer = r#""insights": [{"content": "甲", "importance": 0.4}, {"content": "乙"}, {"content": "丙", "importance": 1}]}"#;
    let action = dream.step(DaydreamEvent::Extracted(Some(answer.to_string())));
    assert_eq!(action, DaydreamAction::Remember(vec![opinion("甲", 0.4), opinion("丙", 1.0)]));
    assert_eq!(dream.stage(), Stage::Remembering);
    let action = dream.step(DaydreamEvent::Remembered);
    assert_eq!(
        action,
        DaydreamAction::Consolidate(ConsolidateCall {
            display_name: "小灵".to_string(),
            days: 0.2f64.to_bits(),
        })
    );
    assert_eq!(dream.stage(), Stage::Consolidating);
    assert_eq!(dream.step(DaydreamEvent::Consolidated), finished());
    assert_eq!(dream.stage(), Stage::Over);
}

#[test]
fn no_insights_still_settle() {
    let mut dream = extracting();
    let action = dream.conclude(&InsightReading::Insights(vec![]));
    assert_eq!(action, DaydreamAction::Remember(vec![]));
    assert!(matches!(dream.step(DaydreamEvent::Remembered), DaydreamAction::Consolidate(_)));
}

#[test]
fn what_was_read_decides_what_follows() {
    let insight = Insight { content: "甲".to_string(), importance: 0.4f64.to_bits() };
    assert_eq!(
        extracting().conclude(&InsightReading::Insights(vec![insight])),
        DaydreamAction::Remember(vec![opinion("甲", 0.4)])
    );
    assert_eq!(extracting().conclude(&InsightReading::NotJson), finished());
    assert_eq!(extracting().conclude(&InsightReading::NoList), DaydreamAction::Abort);
}

#[test]
fn strings_are_joined() {
    let parts = vec!["a".to_string(), "b".to_string(), "c".to_string()];
    assert_eq!(join(&parts, ", "), "a, b, c");
    assert_eq!(join(&vec!["a".to_string()], ", "), "a");
    assert_eq!(join(&vec![], ", "), "");
}

#[test]
fn the_longest_daydream_takes_ten_events() {
    let mut dream = begin(Some("猫"));
    let answer = r#"{"insights": []}"#.to_string();
    let events = vec![
        DaydreamEvent::Records(vec![]),
        DaydreamEvent::Recalled(vec![]),
        DaydreamEvent::Mused(Ok("独白".to_string())),
        DaydreamEvent::Extracted(None),
        DaydreamEvent::Extracted(None),
        DaydreamEvent::Extracted(None),
        DaydreamEvent::Extracted(None),
        DaydreamEvent::Extracted(Some(answer)),
        DaydreamEvent::Remembered,
    ];
    for event in events {
        dream.step(event);
        assert_ne!(dream.stage(), Stage::Over);
    }
    assert_eq!(dream.step(DaydreamEvent::Consolidated), finished());
    assert_eq!(dream.stage(), Stage::Over);
}
