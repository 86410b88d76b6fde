//! Daydreaming: a role thinks by itself over what it remembers, and keeps what it concludes.
//!
//! The outside work (the memories, the language models) is done by the caller. A [`Daydream`]
//! says what to do next, is told how that went, and goes on from there.

use crate::insight::{
    completed, documents_hold_a_list_of_insights, insights_among, insights_view,
    only_a_missing_brace_is_put_back, only_malformed_items_are_skipped, read_answer, reading_of,
    says, Insight, InsightReading, InsightReadingView, InsightView,
};
use crate::json::{parsed_document, JsonView};
use crate::memory::MemoryType;
use crate::moment::LocalMoment;
use crate::text::{
    every_part_but_the_last_is_followed_by_a_separator, join, joined, opt_text, texts,
};
use crate::vector_memory::{
    consolidate_memory, recall_node_memory_in_range, recall_vector_memory, write_memory_with_type,
    ConsolidateCall, ConsolidateCallView, RangeCall, RangeCallView, RecallCall, RecallCallView,
    WriteCall, WriteCallView,
};
use vstd::prelude::*;

verus! {

/// How many of the latest records a daydream starts from.
pub const RECENT_RECORDS: usize = 8;

/// How many memories a daydream recalls for its topic.
pub const TOPIC_MEMORIES: usize = 8;

/// The namespace of the dialogue that a daydream starts from.
pub const CHAT_NAMESPACE: &'static str = "chat_msg";

/// The namespace of what a daydream concludes.
pub const INSIGHT_NAMESPACE: &'static str = "insight";

/// How often a model is asked for insights before a daydream goes without.
pub const EXTRACTION_ATTEMPTS: u32 = 5;

/// The days by which a memory is consolidated after a daydream: the bits of the double 0.2.
pub const DAYDREAM_DAYS: u64 = 0x3fc9_9999_9999_999a;

/// What stands between recalled memories.
pub const MEMORY_SEPARATOR: &'static str = "\n---\n";

/// What the material of a daydream starts with.
pub const MATERIAL_HEAD: &'static str = "以下是你的发呆素材：";

/// What comes before the reason for a daydream.
pub const TASK_HEAD: &'static str = "\n\n你正在自己无监管的思绪中发呆，原因是\"";

/// What comes after the reason for a daydream.
pub const TASK_TAIL: &'static str = "\"\n";

/// What a daydreaming role is told to do.
pub const TASK_BODY: &'static str = r#"
接下来无论你产生任何回复都不会被用户观察到，不要对用户说话，不要做出行为或描述场景，只要思考就好。
接下来请自言自语（比如展望未来，复习刚才对话，或者理性分析），发散出大约 3000 字的文案以解决上述情况。
"#;

/// How a model is told to draw insights from a monologue.
pub const EXTRACTION_HEAD: &'static str = r#"
你是一个专业的【思绪分析专家】。接下来的消息中会包含你自己的思考内容，你的任务是抽取你自己思考内容中的结论。
请从你思考的长文段中抽取 3-10 条信息（如历史经过，个人观点等）
不要记录客观上不可察觉的信息（如思绪的过程）
使用第一人称，主观的语言。

以下是重要度的具体指引参考：
- 重要度 0.1-0.3：不太重要的信息，比如：事情经过，细节，暂时时效性的信息。
- 重要度 0.4-0.6：重要的信息，比如：重要的事情发生，个人观点，爱好，情绪表达等。
- 重要度 0.7-0.9：不能忽视的重要信息，比如：剧烈的情绪，关键的事件，学会的技能等。
越是复杂的信息，重要度越低。例如：
代码的实现 - 复杂，不重要
事件的过程 - 复杂，较不重要
出现的情绪 - 简单，重要


对于每条新信息，请按以下格式输出：
{
    "insights": [
        {
            "content": "<信息内容>",
            "importance": <重要度，0.0-1.0 之间的浮点数>
        },
        ... // 更多信息
    ]
}

"#;

/// The start of its answer that a model is given.
pub const ANSWER_START: &'static str = "{";

/// Who speaks in a message to a language model.
#[derive(Clone, Copy, Debug, PartialEq, Eq, Structural)]
pub enum Speaker {
    System,
    User,
    Assistant,
}

/// A message to a language model.
#[derive(Debug, PartialEq, Eq)]
pub struct LlmMessage {
    pub speaker: Speaker,
    pub content: String,
}

/// A message to a language model, in specifications.
pub struct LlmMessageView {
    pub speaker: Speaker,
    pub content: Seq<char>,
}

impl View for LlmMessage {
    type V = LlmMessageView;

    open spec fn view(&self) -> LlmMessageView {
        LlmMessageView { speaker: self.speaker, content: self.content@ }
    }
}

/// What messages hold.
pub open spec fn messages_view(messages: Seq<LlmMessage>) -> Seq<LlmMessageView> {
    messages.map_values(|m: LlmMessage| m@)
}

/// A record of dialogue.
#[derive(Debug, PartialEq, Eq)]
pub struct ChatRecord {
    pub content: String,
    pub created_at: LocalMoment,
}

/// A record as a piece of material.
pub open spec fn material_entry(record: ChatRecord) -> Seq<char> {
    "\n"@ + record.content@ + "\n[时间："@ + record.created_at.spec_stamp() + "]\n---"@
}

/// The records from the last back to the one at `n`, as material. Given the latest first, they
/// are told in the order in which they were made.
pub open spec fn material_back_to(records: Seq<ChatRecord>, n: int) -> Seq<char>
    decreases records.len() - n,
{
    if n < 0 || n >= records.len() {
        Seq::empty()
    } else {
        material_back_to(records, n + 1) + material_entry(records[n])
    }
}

/// The material of a daydream: the records, given the latest first, told the earliest first.
pub open spec fn material(records: Seq<ChatRecord>) -> Seq<char> {
    MATERIAL_HEAD@ + material_back_to(records, 0)
}

/// The material of a daydream.
pub fn gather_material(records: &Vec<ChatRecord>) -> (text: String)
    ensures
        text@ == material(records@),
{
    let mut text: String = MATERIAL_HEAD.to_string();
    let mut i: usize = records.len();
    while i > 0
        invariant
            i <= records.len(),
            text@ == MATERIAL_HEAD@ + material_back_to(records@, i as int),
        decreases i,
    {
        let ghost before = text@;
        i = i - 1;
        let record: &ChatRecord = &records[i];
        text.append("\n");
        text.append(record.content.as_str());
        text.append("\n[时间：");
        text.append(record.created_at.stamp().as_str());
        text.append("]\n---");
        assert(text@ == before + material_entry(*record));
        assert(text@ == MATERIAL_HEAD@ + material_back_to(records@, i as int));
    }
    text
}

/// What the model that daydreams is told: who it is, what to do, and its material.
pub open spec fn monologue_prompt(
    character_prompt: Seq<char>,
    reason: Seq<char>,
    material: Seq<char>,
) -> Seq<char> {
    character_prompt + (TASK_HEAD@ + reason + TASK_TAIL@ + TASK_BODY@) + material
}

/// What the model that daydreams is told.
pub fn write_monologue_prompt(character_prompt: &str, reason: &str, material: &str) -> (prompt:
    String)
    ensures
        prompt@ == monologue_prompt(character_prompt@, reason@, material@),
{
    let mut task: String = TASK_HEAD.to_string();
    task.append(reason);
    task.append(TASK_TAIL);
    task.append(TASK_BODY);
    character_prompt.to_string().concat(task.as_str()).concat(material)
}

/// What a model is told to draw insights from a monologue.
pub open spec fn extraction_messages(character_prompt: Seq<char>, monologue: Seq<char>) -> Seq<
    LlmMessageView,
> {
    seq![
        LlmMessageView {
            speaker: Speaker::System,
            content: EXTRACTION_HEAD@ + character_prompt,
        },
        LlmMessageView { speaker: Speaker::User, content: monologue },
        LlmMessageView { speaker: Speaker::Assistant, content: ANSWER_START@ },
    ]
}

/// What a model is told to draw insights from a monologue.
pub fn write_extraction_messages(character_prompt: &str, monologue: &str) -> (messages: Vec<
    LlmMessage,
>)
    ensures
        messages_view(messages@) == extraction_messages(character_prompt@, monologue@),
{
    let mut messages: Vec<LlmMessage> = Vec::new();
    messages.push(
        LlmMessage {
            speaker: Speaker::System,
            content: EXTRACTION_HEAD.to_string().concat(character_prompt),
        },
    );
    messages.push(LlmMessage { speaker: Speaker::User, content: monologue.to_string() });
    messages.push(
        LlmMessage { speaker: Speaker::Assistant, content: ANSWER_START.to_string() },
    );
    assert(messages_view(messages@) == extraction_messages(character_prompt@, monologue@));
    messages
}

/// How an insight is remembered.
pub open spec fn insight_call(display_name: Seq<char>, insight: InsightView) -> WriteCallView {
    WriteCallView {
        display_name,
        summary: insight.content,
        memory_type: MemoryType::Opinion,
        importance: Some(insight.importance),
        namespace: Some(INSIGHT_NAMESPACE@),
    }
}

/// How insights are remembered, one after another.
pub open spec fn insight_calls(display_name: Seq<char>, insights: Seq<InsightView>) -> Seq<
    WriteCallView,
> {
    insights.map_values(|i: InsightView| insight_call(display_name, i))
}

/// What calls hold.
pub open spec fn write_calls_view(calls: Seq<WriteCall>) -> Seq<WriteCallView> {
    calls.map_values(|c: WriteCall| c@)
}

/// How insights are remembered, one after another.
pub fn remember_insights(display_name: &str, insights: &Vec<Insight>) -> (calls: Vec<WriteCall>)
    ensures
        write_calls_view(calls@) == insight_calls(display_name@, insights_view(insights@)),
{
    let mut calls: Vec<WriteCall> = Vec::new();
    let mut i: usize = 0;
    while i < insights.len()
        invariant
            i <= insights.len(),
            calls@.len() == i,
            forall|k: int|
                0 <= k < i ==> #[trigger] calls@[k]@ == insight_call(
                    display_name@,
                    insights@[k]@,
                ),
        decreases insights.len() - i,
    {
        calls.push(
            write_memory_with_type(
                display_name,
                insights[i].content.clone(),
                MemoryType::Opinion,
                Some(insights[i].importance),
                Some(INSIGHT_NAMESPACE.to_string()),
            ),
        );
        i = i + 1;
    }
    assert(write_calls_view(calls@) == insight_calls(display_name@, insights_view(insights@)));
    calls
}

/// Why a daydream came to nothing.
#[derive(Debug, PartialEq, Eq)]
pub enum DaydreamError {
    /// No reason was given.
    EmptyReason,
    /// There is no model to daydream with.
    NoModel,
    /// The model that daydreams failed.
    ModelFailed(String),
}

/// Why a daydream came to nothing, in specifications.
pub enum DaydreamErrorView {
    EmptyReason,
    NoModel,
    ModelFailed(Seq<char>),
}

impl View for DaydreamError {
    type V = DaydreamErrorView;

    open spec fn view(&self) -> DaydreamErrorView {
        match self {
            DaydreamError::EmptyReason => DaydreamErrorView::EmptyReason,
            DaydreamError::NoModel => DaydreamErrorView::NoModel,
            DaydreamError::ModelFailed(why) => DaydreamErrorView::ModelFailed(why@),
        }
    }
}

impl DaydreamErrorView {
    /// The text of the error.
    pub open spec fn message(self) -> Seq<char> {
        match self {
            DaydreamErrorView::EmptyReason => "reason 不能为空"@,
            DaydreamErrorView::NoModel => "发呆 LLM 槽位未配置！"@,
            DaydreamErrorView::ModelFailed(why) => why,
        }
    }
}

impl DaydreamError {
    /// The text of the error.
    pub fn message(&self) -> (text: String)
        ensures
            text@ == self@.message(),
    {
        match self {
            DaydreamError::EmptyReason => "reason 不能为空".to_string(),
            DaydreamError::NoModel => "发呆 LLM 槽位未配置！".to_string(),
            DaydreamError::ModelFailed(why) => why.clone(),
        }
    }
}

/// What a daydream waits for.
#[derive(Clone, Copy, Debug, PartialEq, Eq, Structural)]
pub enum Stage {
    /// The latest records of dialogue.
    Looking,
    /// The memories of its topic.
    Recalling,
    /// The monologue.
    Musing,
    /// The insights drawn from the monologue.
    Extracting,
    /// The insights being remembered.
    Remembering,
    /// The memory being consolidated.
    Consolidating,
    /// Nothing: it is over.
    Over,
}

/// What a daydream wants done.
#[derive(Debug, PartialEq, Eq)]
pub enum DaydreamAction {
    /// Look into the memory.
    Look(RangeCall),
    /// Ask the memory.
    Recall(RecallCall),
    /// Send messages to the model that daydreams, if there is one.
    Muse(Vec<LlmMessage>),
    /// Send messages to the model that draws insights.
    Extract(Vec<LlmMessage>),
    /// Write texts into the memory, one after another.
    Remember(Vec<WriteCall>),
    /// Consolidate the memory.
    Consolidate(ConsolidateCall),
    /// End with the monologue or an error.
    Finish(Result<String, DaydreamError>),
    /// End abnormally: the model's answer is a document without a list of insights.
    Abort,
}

/// What a daydream wants done, in specifications.
pub enum DaydreamActionView {
    Look(RangeCallView),
    Recall(RecallCallView),
    Muse(Seq<LlmMessageView>),
    Extract(Seq<LlmMessageView>),
    Remember(Seq<WriteCallView>),
    Consolidate(ConsolidateCallView),
    Finish(Result<Seq<char>, DaydreamErrorView>),
    Abort,
}

impl View for DaydreamAction {
    type V = DaydreamActionView;

    open spec fn view(&self) -> DaydreamActionView {
        match self {
            DaydreamAction::Look(call) => DaydreamActionView::Look(call@),
            DaydreamAction::Recall(call) => DaydreamActionView::Recall(call@),
            DaydreamAction::Muse(messages) => DaydreamActionView::Muse(messages_view(messages@)),
            DaydreamAction::Extract(messages) => DaydreamActionView::Extract(
                messages_view(messages@),
            ),
            DaydreamAction::Remember(calls) => DaydreamActionView::Remember(
                write_calls_view(calls@),
            ),
            DaydreamAction::Consolidate(call) => DaydreamActionView::Consolidate(call@),
            DaydreamAction::Finish(Ok(monologue)) => DaydreamActionView::Finish(Ok(monologue@)),
            DaydreamAction::Finish(Err(error)) => DaydreamActionView::Finish(Err(error@)),
            DaydreamAction::Abort => DaydreamActionView::Abort,
        }
    }
}

/// How it went what a daydream wanted done.
#[derive(Debug, PartialEq, Eq)]
pub enum DaydreamEvent {
    /// The latest records, the latest first.
    Records(Vec<ChatRecord>),
    /// The lines of recalled memories.
    Recalled(Vec<String>),
    /// There is no model to daydream with.
    NoModel,
    /// The answer of the model that daydreams, or why it failed.
    Mused(Result<String, String>),
    /// The answer of the model that draws insights, unless it failed.
    Extracted(Option<String>),
    /// The texts were written, as far as that went.
    Remembered,
    /// The memory was consolidated, as far as that went.
    Consolidated,
}

/// A daydream on its way.
#[derive(Debug, PartialEq, Eq)]
pub struct Daydream {
    display_name: String,
    character_prompt: String,
    reason: String,
    topic: Option<String>,
    material: String,
    monologue: String,
    attempts: u32,
    stage: Stage,
}

/// A daydream on its way, in specifications. `attempts` counts how often the model that draws
/// insights has failed.
pub struct DaydreamView {
    pub display_name: Seq<char>,
    pub character_prompt: Seq<char>,
    pub reason: Seq<char>,
    pub topic: Option<Seq<char>>,
    pub material: Seq<char>,
    pub monologue: Seq<char>,
    pub attempts: u32,
    pub stage: Stage,
}

impl View for Daydream {
    type V = DaydreamView;

    closed spec fn view(&self) -> DaydreamView {
        DaydreamView {
            display_name: self.display_name@,
            character_prompt: self.character_prompt@,
            reason: self.reason@,
            topic: opt_text(self.topic),
            material: self.material@,
            monologue: self.monologue@,
            attempts: self.attempts,
            stage: self.stage,
        }
    }
}

impl DaydreamView {
    /// While the model that draws insights is asked, it has failed less often than it may.
    pub open spec fn well_formed(self) -> bool {
        self.stage == Stage::Extracting ==> self.attempts < EXTRACTION_ATTEMPTS
    }

    /// Whether the event is an answer to what the daydream waits for.
    pub open spec fn expects(self, event: DaydreamEvent) -> bool {
        match self.stage {
            Stage::Looking => event is Records,
            Stage::Recalling => event is Recalled,
            Stage::Musing => event is NoModel || event is Mused,
            Stage::Extracting => event is Extracted,
            Stage::Remembering => event is Remembered,
            Stage::Consolidating => event is Consolidated,
            Stage::Over => false,
        }
    }

    /// The daydream at another stage.
    pub open spec fn at(self, stage: Stage) -> DaydreamView {
        DaydreamView { stage, ..self }
    }

    /// Now the monologue is wanted.
    pub open spec fn muse(self) -> (DaydreamView, DaydreamActionView) {
        (
            self.at(Stage::Musing),
            DaydreamActionView::Muse(
                seq![
                    LlmMessageView {
                        speaker: Speaker::System,
                        content: monologue_prompt(
                            self.character_prompt,
                            self.reason,
                            self.material,
                        ),
                    },
                ],
            ),
        )
    }

    /// Now insights are wanted.
    pub open spec fn extract(self) -> (DaydreamView, DaydreamActionView) {
        (
            self.at(Stage::Extracting),
            DaydreamActionView::Extract(
                extraction_messages(self.character_prompt, self.monologue),
            ),
        )
    }

    /// Now it is over.
    pub open spec fn finish(self, result: Result<Seq<char>, DaydreamErrorView>) -> (
        DaydreamView,
        DaydreamActionView,
    ) {
        (self.at(Stage::Over), DaydreamActionView::Finish(result))
    }

    /// What follows once the model that draws insights has answered, by what the answer holds.
    pub open spec fn conclude(self, reading: InsightReadingView) -> (
        DaydreamView,
        DaydreamActionView,
    ) {
        match reading {
            InsightReadingView::NotJson => self.finish(Ok(self.monologue)),
            InsightReadingView::NoList => (self.at(Stage::Over), DaydreamActionView::Abort),
            InsightReadingView::Insights(insights) => (
                self.at(Stage::Remembering),
                DaydreamActionView::Remember(insight_calls(self.display_name, insights)),
            ),
        }
    }

    /// How the daydream goes on after an event, and what it wants done then.
    pub open spec fn next(self, event: DaydreamEvent) -> (DaydreamView, DaydreamActionView) {
        match event {
            DaydreamEvent::Records(records) => {
                let gathered = DaydreamView { material: material(records@), ..self };
                match self.topic {
                    Some(query) => (
                        gathered.at(Stage::Recalling),
                        DaydreamActionView::Recall(
                            RecallCallView {
                                display_name: self.display_name,
                                max_nodes: TOPIC_MEMORIES,
                                query,
                                context: None,
                            },
                        ),
                    ),
                    None => gathered.muse(),
                }
            },
            DaydreamEvent::Recalled(lines) => DaydreamView {
                material: self.material + joined(
                    texts(lines@),
                    MEMORY_SEPARATOR@,
                    lines@.len(),
                ),
                ..self
            }.muse(),
            DaydreamEvent::NoModel => self.finish(Err(DaydreamErrorView::NoModel)),
            DaydreamEvent::Mused(Ok(monologue)) => DaydreamView {
                monologue: monologue@,
                attempts: 0,
                ..self
            }.extract(),
            DaydreamEvent::Mused(Err(why)) => self.finish(
                Err(DaydreamErrorView::ModelFailed(why@)),
            ),
            DaydreamEvent::Extracted(None) => {
                let failed = DaydreamView { attempts: (self.attempts + 1) as u32, ..self };
                if failed.attempts < EXTRACTION_ATTEMPTS {
                    failed.extract()
                } else {
                    failed.finish(Ok(self.monologue))
                }
            },
            DaydreamEvent::Extracted(Some(answer)) => if answer@.len() == 0 {
                self.finish(Ok(self.monologue))
            } else {
                self.conclude(reading_of(parsed_document(completed(answer@))))
            },
            DaydreamEvent::Remembered => (
                self.at(Stage::Consolidating),
                DaydreamActionView::Consolidate(
                    ConsolidateCallView { display_name: self.display_name, days: DAYDREAM_DAYS },
                ),
            ),
            DaydreamEvent::Consolidated => self.finish(Ok(self.monologue)),
        }
    }
}

/// A daydream that has just begun.
pub open spec fn begun(
    display_name: Seq<char>,
    character_prompt: Seq<char>,
    reason: Seq<char>,
    topic: Option<Seq<char>>,
) -> DaydreamView {
    DaydreamView {
        display_name,
        character_prompt,
        reason,
        topic,
        material: Seq::empty(),
        monologue: Seq::empty(),
        attempts: 0,
        stage: Stage::Looking,
    }
}

/// Begins a daydream, and says what it wants done first. Without a reason there is none.
pub fn daydream(
    display_name: &str,
    character_prompt: &str,
    reason: &str,
    topic: Option<String>,
) -> (begin: Result<(Daydream, DaydreamAction), DaydreamError>)
    ensures
        match begin {
            Ok((dream, action)) => {
                &&& reason@.len() > 0
                &&& dream@ == begun(display_name@, character_prompt@, reason@, opt_text(topic))
                &&& dream@.well_formed()
                &&& action@ == DaydreamActionView::Look(
                    RangeCallView::Recent {
                        display_name: display_name@,
                        max_nodes: RECENT_RECORDS,
                        namespace: Some(CHAT_NAMESPACE@),
                    },
                )
            },
            Err(error) => reason@.len() == 0 && error == DaydreamError::EmptyReason,
        },
{
    if reason.is_empty() {
        return Err(DaydreamError::EmptyReason);
    }
    let call: RangeCall = recall_node_memory_in_range(
        display_name,
        None,
        RECENT_RECORDS,
        Some(CHAT_NAMESPACE.to_string()),
    );
    let dream: Daydream = Daydream {
        display_name: display_name.to_string(),
        character_prompt: character_prompt.to_string(),
        reason: reason.to_string(),
        topic,
        material: String::new(),
        monologue: String::new(),
        attempts: 0,
        stage: Stage::Looking,
    };
    Ok((dream, DaydreamAction::Look(call)))
}

impl Daydream {
    /// What the daydream waits for.
    pub fn stage(&self) -> (stage: Stage)
        ensures
            stage == self@.stage,
    {
        self.stage
    }

    /// Now the monologue is wanted.
    fn muse(&mut self) -> (action: DaydreamAction)
        ensures
            (final(self)@, action@) == old(self)@.muse(),
    {
        self.stage = Stage::Musing;
        let mut messages: Vec<LlmMessage> = Vec::new();
        messages.push(
            LlmMessage {
                speaker: Speaker::System,
                content: write_monologue_prompt(
                    self.character_prompt.as_str(),
                    self.reason.as_str(),
                    self.material.as_str(),
                ),
            },
        );
        assert(messages_view(messages@) == old(self)@.muse().1->Muse_0);
        DaydreamAction::Muse(messages)
    }

    /// Now insights are wanted.
    fn extract(&mut self) -> (action: DaydreamAction)
        ensures
            (final(self)@, action@) == old(self)@.extract(),
    {
        self.stage = Stage::Extracting;
        DaydreamAction::Extract(
            write_extraction_messages(self.character_prompt.as_str(), self.monologue.as_str()),
        )
    }

    /// Now it is over, and the monologue is what came of it.
    fn finish(&mut self) -> (action: DaydreamAction)
        ensures
            (final(self)@, action@) == old(self)@.finish(Ok(old(self)@.monologue)),
    {
        self.stage = Stage::Over;
        DaydreamAction::Finish(Ok(self.monologue.clone()))
    }

    /// What follows once the model that draws insights has answered, by what the answer holds.
    pub fn conclude(&mut self, reading: &InsightReading) -> (action: DaydreamAction)
        ensures
            (final(self)@, action@) == old(self)@.conclude(reading@),
    {
        match reading {
            InsightReading::NotJson => self.finish(),
            InsightReading::NoList => {
                self.stage = Stage::Over;
                DaydreamAction::Abort
            },
            InsightReading::Insights(insights) => {
                self.stage = Stage::Remembering;
                DaydreamAction::Remember(remember_insights(self.display_name.as_str(), insights))
            },
        }
    }

    /// Takes note of an event, goes on, and says what is wanted then.
    pub fn step(&mut self, event: DaydreamEvent) -> (action: DaydreamAction)
        requires
            old(self)@.well_formed(),
            old(self)@.expects(event),
        ensures
            (final(self)@, action@) == old(self)@.next(event),
            final(self)@.well_formed(),
    {
        match event {
            DaydreamEvent::Records(records) => {
                self.material = gather_material(&records);
                match &self.topic {
                    Some(query) => {
                        let call: RecallCall = recall_vector_memory(
                            self.display_name.as_str(),
                            TOPIC_MEMORIES,
                            query.clone(),
                            None,
                        );
                        self.stage = Stage::Recalling;
                        DaydreamAction::Recall(call)
                    },
                    None => self.muse(),
                }
            },
            DaydreamEvent::Recalled(lines) => {
                let memories: String = join(&lines, MEMORY_SEPARATOR);
                self.material = self.material.clone().concat(memories.as_str());
                self.muse()
            },
            DaydreamEvent::NoModel => {
                self.stage = Stage::Over;
                DaydreamAction::Finish(Err(DaydreamError::NoModel))
            },
            DaydreamEvent::Mused(Ok(monologue)) => {
                self.monologue = monologue;
                self.attempts = 0;
                self.extract()
            },
            DaydreamEvent::Mused(Err(why)) => {
                self.stage = Stage::Over;
                DaydreamAction::Finish(Err(DaydreamError::ModelFailed(why)))
            },
            DaydreamEvent::Extracted(None) => {
                self.attempts = self.attempts + 1;
                if self.attempts < EXTRACTION_ATTEMPTS {
                    self.extract()
                } else {
                    self.finish()
                }
            },
            DaydreamEvent::Extracted(Some(answer)) => {
                if answer.as_str().is_empty() {
                    self.finish()
                } else {
                    let reading: InsightReading = read_answer(answer.as_str());
                    self.conclude(&reading)
                }
            },
            DaydreamEvent::Remembered => {
                self.stage = Stage::Consolidating;
                DaydreamAction::Consolidate(
                    consolidate_memory(self.display_name.as_str(), DAYDREAM_DAYS),
                )
            },
            DaydreamEvent::Consolidated => self.finish(),
        }
    }
}

impl DaydreamView {
    /// The most events that can still come.
    pub open spec fn events_left(self) -> nat {
        match self.stage {
            Stage::Looking => (EXTRACTION_ATTEMPTS + 5) as nat,
            Stage::Recalling => (EXTRACTION_ATTEMPTS + 4) as nat,
            Stage::Musing => (EXTRACTION_ATTEMPTS + 3) as nat,
            Stage::Extracting => (EXTRACTION_ATTEMPTS - self.attempts + 2) as nat,
            Stage::Remembering => 2,
            Stage::Consolidating => 1,
            Stage::Over => 0,
        }
    }

    /// The most often that the model that draws insights can still be asked.
    pub open spec fn extractions_left(self) -> nat {
        match self.stage {
            Stage::Looking | Stage::Recalling | Stage::Musing => EXTRACTION_ATTEMPTS as nat,
            Stage::Extracting => (EXTRACTION_ATTEMPTS - self.attempts - 1) as nat,
            _ => 0,
        }
    }

    /// Whether the monologue is there.
    pub open spec fn has_monologue(self) -> bool {
        self.stage == Stage::Extracting || self.stage == Stage::Remembering || self.stage
            == Stage::Consolidating
    }

    /// Whether the events can come one after another.
    pub open spec fn accepts(self, events: Seq<DaydreamEvent>) -> bool
        decreases events.len(),
    {
        events.len() > 0 ==> self.expects(events.first()) && self.next(events.first()).0.accepts(
            events.drop_first(),
        )
    }

    /// How often the model that draws insights is asked in the course of the events.
    pub open spec fn extractions(self, events: Seq<DaydreamEvent>) -> nat
        decreases events.len(),
    {
        if events.len() == 0 {
            0
        } else {
            let (after, action) = self.next(events.first());
            let later = after.extractions(events.drop_first());
            if action is Extract {
                later + 1
            } else {
                later
            }
        }
    }

    /// What is wanted after the last of the events.
    pub open spec fn last_action(self, events: Seq<DaydreamEvent>) -> DaydreamActionView
        recommends
            events.len() > 0,
        decreases events.len(),
    {
        let (after, action) = self.next(events.first());
        if events.len() <= 1 {
            action
        } else {
            after.last_action(events.drop_first())
        }
    }
}

/// Every event brings a daydream nearer to its end, and it is over exactly when it says so.
pub proof fn every_event_brings_the_end_nearer(dream: DaydreamView, event: DaydreamEvent)
    requires
        dream.well_formed(),
        dream.expects(event),
    ensures
        dream.next(event).0.well_formed(),
        dream.next(event).0.events_left() < dream.events_left(),
        dream.next(event).0.stage == Stage::Over <==> (dream.next(event).1 is Finish
            || dream.next(event).1 is Abort),
{
}

/// A daydream takes no more events than are left to it: ten from its beginning.
pub proof fn daydreams_end(dream: DaydreamView, events: Seq<DaydreamEvent>)
    requires
        dream.well_formed(),
        dream.accepts(events),
    ensures
        events.len() <= dream.events_left() <= 10,
    decreases events.len(),
{
    if events.len() > 0 {
        every_event_brings_the_end_nearer(dream, events.first());
        daydreams_end(dream.next(events.first()).0, events.drop_first());
    }
}

/// The model that draws insights is asked five times at most.
pub proof fn insights_are_asked_for_five_times_at_most(
    dream: DaydreamView,
    events: Seq<DaydreamEvent>,
)
    requires
        dream.well_formed(),
        dream.accepts(events),
    ensures
        dream.extractions(events) <= dream.extractions_left() <= 5,
    decreases events.len(),
{
    if events.len() > 0 {
        every_event_brings_the_end_nearer(dream, events.first());
        insights_are_asked_for_five_times_at_most(
            dream.next(events.first()).0,
            events.drop_first(),
        );
    }
}

/// Once there is a monologue, a daydream that ends without an abort gives that monologue,
/// whatever becomes of the insights.
pub proof fn a_monologue_is_not_lost(dream: DaydreamView, events: Seq<DaydreamEvent>)
    requires
        dream.well_formed(),
        dream.has_monologue(),
        dream.accepts(events),
        events.len() > 0,
    ensures
        dream.last_action(events) matches DaydreamActionView::Finish(result) ==> result == Ok::<
            Seq<char>,
            DaydreamErrorView,
        >(dream.monologue),
    decreases events.len(),
{
    let after = dream.next(events.first()).0;
    every_event_brings_the_end_nearer(dream, events.first());
    if events.len() > 1 {
        reveal_with_fuel(DaydreamView::accepts, 2);
        assert(after.expects(events.drop_first().first()));
        a_monologue_is_not_lost(after, events.drop_first());
    }
}

/// A daydream fails only for want of a reason, of a model, or of the model's answer: any other
/// end is a monologue, and the monologue is the one that was thought.
pub proof fn only_musing_fails(dream: DaydreamView, event: DaydreamEvent)
    requires
        dream.expects(event),
    ensures
        dream.next(event).1 matches DaydreamActionView::Finish(Err(error)) ==> {
            &&& dream.stage == Stage::Musing
            &&& match event {
                DaydreamEvent::NoModel => error == DaydreamErrorView::NoModel,
                DaydreamEvent::Mused(Err(why)) => error == DaydreamErrorView::ModelFailed(why@),
                _ => false,
            }
        },
        dream.next(event).1 matches DaydreamActionView::Finish(Ok(monologue))
            ==> dream.has_monologue() && monologue == dream.monologue,
{
}

/// A daydream that is refused nothing goes from the dialogue over the monologue to the insights:
/// it has what the answer gave remembered as opinions, has the memory consolidated, and ends with
/// the monologue.
pub proof fn an_unhindered_daydream_keeps_its_insights(
    display_name: Seq<char>,
    character_prompt: Seq<char>,
    reason: Seq<char>,
    records: Vec<ChatRecord>,
    monologue: String,
    answer: String,
    insights: Seq<InsightView>,
)
    requires
        answer@.len() > 0,
        reading_of(parsed_document(completed(answer@))) == InsightReadingView::Insights(insights),
    ensures
        ({
            let looking = begun(display_name, character_prompt, reason, None);
            let musing = looking.next(DaydreamEvent::Records(records));
            let extracting = musing.0.next(DaydreamEvent::Mused(Ok(monologue)));
            let remembering = extracting.0.next(DaydreamEvent::Extracted(Some(answer)));
            let consolidating = remembering.0.next(DaydreamEvent::Remembered);
            let over = consolidating.0.next(DaydreamEvent::Consolidated);
            &&& looking.accepts(
                seq![
                    DaydreamEvent::Records(records),
                    DaydreamEvent::Mused(Ok(monologue)),
                    DaydreamEvent::Extracted(Some(answer)),
                    DaydreamEvent::Remembered,
                    DaydreamEvent::Consolidated,
                ],
            )
            &&& musing.1 == DaydreamActionView::Muse(
                seq![
                    LlmMessageView {
                        speaker: Speaker::System,
                        content: monologue_prompt(character_prompt, reason, material(records@)),
                    },
                ],
            )
            &&& extracting.1 == DaydreamActionView::Extract(
                extraction_messages(character_prompt, monologue@),
            )
            &&& remembering.1 == DaydreamActionView::Remember(
                insight_calls(display_name, insights),
            )
            &&& consolidating.1 == DaydreamActionView::Consolidate(
                ConsolidateCallView { display_name, days: DAYDREAM_DAYS },
            )
            &&& over.1 == DaydreamActionView::Finish(Ok(monologue@))
        }),
{
    let events = seq![
        DaydreamEvent::Records(records),
        DaydreamEvent::Mused(Ok(monologue)),
        DaydreamEvent::Extracted(Some(answer)),
        DaydreamEvent::Remembered,
        DaydreamEvent::Consolidated,
    ];
    reveal_with_fuel(DaydreamView::accepts, 6);
    let rest1 = events.drop_first();
    let rest2 = rest1.drop_first();
    let rest3 = rest2.drop_first();
    let rest4 = rest3.drop_first();
    assert(rest1.first() == events[1]);
    assert(rest2.first() == events[2]);
    assert(rest3.first() == events[3]);
    assert(rest4.first() == events[4]);
}

proof fn lemma_material_back_to(records: Seq<ChatRecord>, n: int)
    requires
        0 <= n <= records.len(),
    ensures
        material_back_to(records, n) == records.skip(n).reverse().map_values(
            |record: ChatRecord| material_entry(record),
        ).flatten(),
    decreases records.len() - n,
{
    let told = |record: ChatRecord| material_entry(record);
    let entries = records.skip(n).reverse().map_values(told);
    if n < records.len() {
        lemma_material_back_to(records, n + 1);
        let earlier = records.skip(n + 1).reverse().map_values(told);
        assert(entries == earlier.push(material_entry(records[n])));
        earlier.lemma_flatten_push(material_entry(records[n]));
    } else {
        assert(entries.len() == 0);
    }
}

/// The material of a daydream is all of the dialogue, every record with what was said and when.
/// Given the latest first, the records are told the earliest first.
pub proof fn material_is_all_of_the_dialogue(records: Seq<ChatRecord>)
    ensures
        material(records) == "以下是你的发呆素材："@ + records.reverse().map_values(
            |record: ChatRecord|
                "\n"@ + record.content@ + "\n[时间："@ + record.created_at.spec_stamp()
                    + "]\n---"@,
        ).flatten(),
{
    lemma_material_back_to(records, 0);
    assert(records.skip(0) == records);
    assert(records.reverse().map_values(|record: ChatRecord| material_entry(record))
        == records.reverse().map_values(
        |record: ChatRecord|
            "\n"@ + record.content@ + "\n[时间："@ + record.created_at.spec_stamp() + "]\n---"@,
    ));
}

/// The model that daydreams is told who it is, why it daydreams, what to do and all of its
/// material, one after the other.
pub proof fn prompts_hold_all_they_are_given(
    character_prompt: Seq<char>,
    reason: Seq<char>,
    material: Seq<char>,
)
    ensures
        ({
            let prompt = monologue_prompt(character_prompt, reason, material);
            let why = "\n\n你正在自己无监管的思绪中发呆，原因是\""@ + reason + "\"\n"@;
            &&& prompt.len() == character_prompt.len() + why.len() + TASK_BODY@.len()
                + material.len()
            &&& character_prompt.is_prefix_of(prompt)
            &&& why.is_prefix_of(prompt.skip(character_prompt.len() as int))
            &&& TASK_BODY@.is_prefix_of(prompt.skip((character_prompt.len() + why.len()) as int))
            &&& material.is_suffix_of(prompt)
        }),
{
}

/// The model that draws insights is told how to, who it is, the monologue, and how its answer
/// starts, each in a message of its own.
pub proof fn the_whole_monologue_is_searched(character_prompt: Seq<char>, monologue: Seq<char>)
    ensures
        ({
            let messages = extraction_messages(character_prompt, monologue);
            &&& messages.len() == 3
            &&& messages[0].speaker == Speaker::System
            &&& messages[0].content == EXTRACTION_HEAD@ + character_prompt
            &&& messages[1].speaker == Speaker::User
            &&& messages[1].content == monologue
            &&& messages[2].speaker == Speaker::Assistant
            &&& messages[2].content == "{"@
        }),
{
}

/// A daydream muses over who it is, why it daydreams, all of the dialogue, and, where it has a
/// topic, over all the memories that it recalls for that topic: after the dialogue, in order and
/// with a separator between them.
pub proof fn a_daydream_muses_over_the_dialogue_and_its_memories(
    display_name: Seq<char>,
    character_prompt: Seq<char>,
    reason: Seq<char>,
    topic: Option<Seq<char>>,
    records: Vec<ChatRecord>,
    lines: Vec<String>,
)
    ensures
        ({
            let dialogue = records@.reverse().map_values(
                |record: ChatRecord|
                    "\n"@ + record.content@ + "\n[时间："@ + record.created_at.spec_stamp()
                        + "]\n---"@,
            ).flatten();
            let start = character_prompt + (
            "\n\n你正在自己无监管的思绪中发呆，原因是\""@ + reason + "\"\n"@ + TASK_BODY@) + (
            "以下是你的发呆素材："@ + dialogue);
            let looking = begun(display_name, character_prompt, reason, topic);
            let gathered = looking.next(DaydreamEvent::Records(records));
            &&& looking.expects(DaydreamEvent::Records(records))
            &&& match topic {
                None => {
                    &&& gathered.0.stage == Stage::Musing
                    &&& gathered.1 matches DaydreamActionView::Muse(messages) && messages.len()
                        == 1 && messages[0].speaker == Speaker::System && messages[0].content
                        == start
                },
                Some(query) => {
                    let recalled = gathered.0.next(DaydreamEvent::Recalled(lines));
                    &&& gathered.0.expects(DaydreamEvent::Recalled(lines))
                    &&& gathered.1 == DaydreamActionView::Recall(
                        RecallCallView { display_name, max_nodes: 8, query, context: None },
                    )
                    &&& recalled.0.stage == Stage::Musing
                    &&& recalled.1 matches DaydreamActionView::Muse(messages) && messages.len()
                        == 1 && messages[0].speaker == Speaker::System && if lines@.len() == 0 {
                        messages[0].content == start
                    } else {
                        messages[0].content + "\n---\n"@ == start + lines@.map_values(
                            |line: String| line@ + "\n---\n"@,
                        ).flatten()
                    }
                },
            }
        }),
{
    material_is_all_of_the_dialogue(records@);
    every_part_but_the_last_is_followed_by_a_separator(texts(lines@), MEMORY_SEPARATOR@);
    let looking = begun(display_name, character_prompt, reason, topic);
    let gathered = looking.next(DaydreamEvent::Records(records)).0;
    let start = monologue_prompt(character_prompt, reason, material(records@));
    if topic is Some && lines@.len() > 0 {
        let memories = joined(texts(lines@), MEMORY_SEPARATOR@, lines@.len());
        let closed_off = |line: String| line@ + "\n---\n"@;
        assert(texts(lines@).map_values(|part: Seq<char>| part + MEMORY_SEPARATOR@)
            == lines@.map_values(closed_off));
        assert(monologue_prompt(character_prompt, reason, material(records@) + memories)
            + "\n---\n"@ == start + (memories + "\n---\n"@));
    }
    if topic is Some && lines@.len() == 0 {
        assert(material(records@) + Seq::<char>::empty() == material(records@));
    }
}

proof fn lemma_record_in_material(records: Seq<ChatRecord>, k: int) -> (around: (
    Seq<char>,
    Seq<char>,
))
    requires
        0 <= k < records.len(),
    ensures
        material(records) == around.0 + records[k].content@ + around.1,
{
    let entries = records.reverse().map_values(|record: ChatRecord| material_entry(record));
    lemma_material_back_to(records, 0);
    assert(records.skip(0) == records);
    let at = records.len() - 1 - k;
    let entry = material_entry(records[k]);
    assert(entries[at] == entry);
    let before = entries.take(at);
    let after = entries.skip(at + 1);
    assert(entries == before.push(entry) + after);
    before.lemma_flatten_push(entry);
    vstd::seq_lib::lemma_flatten_concat(before.push(entry), after);
    let head = "\n"@;
    let stamp = "\n[时间："@ + records[k].created_at.spec_stamp() + "]\n---"@;
    assert(entry == head + records[k].content@ + stamp);
    let lead = MATERIAL_HEAD@ + before.flatten() + head;
    let tail = stamp + after.flatten();
    assert(MATERIAL_HEAD@ + (before.flatten() + entry + after.flatten()) == lead
        + records[k].content@ + tail);
    (lead, tail)
}

proof fn lemma_piece_of_prompt(
    character_prompt: Seq<char>,
    reason: Seq<char>,
    before: Seq<char>,
    piece: Seq<char>,
    after: Seq<char>,
)
    ensures
        ({
            let prompt = monologue_prompt(character_prompt, reason, before + piece + after);
            let place = (character_prompt + (TASK_HEAD@ + reason + TASK_TAIL@ + TASK_BODY@)
                + before).len() as int;
            &&& place + piece.len() <= prompt.len()
            &&& prompt.subrange(place, place + piece.len()) == piece
        }),
{
}

/// Whatever its topic and its memories, a daydream muses over every record of the dialogue that
/// it was given.
pub proof fn no_record_of_the_dialogue_is_left_out(
    display_name: Seq<char>,
    character_prompt: Seq<char>,
    reason: Seq<char>,
    topic: Option<Seq<char>>,
    records: Vec<ChatRecord>,
    lines: Vec<String>,
    k: int,
) -> (place: int)
    requires
        0 <= k < records@.len(),
    ensures
        ({
            let gathered = begun(display_name, character_prompt, reason, topic).next(
                DaydreamEvent::Records(records),
            );
            let action = if topic is Some {
                gathered.0.next(DaydreamEvent::Recalled(lines)).1
            } else {
                gathered.1
            };
            action matches DaydreamActionView::Muse(messages) && messages.len() == 1 && 0 <= place
                && place + records@[k].content@.len() <= messages[0].content.len()
                && messages[0].content.subrange(place, place + records@[k].content@.len())
                == records@[k].content@
        }),
{
    let (lead, tail) = lemma_record_in_material(records@, k);
    let content = records@[k].content@;
    let memories = if topic is Some {
        joined(texts(lines@), MEMORY_SEPARATOR@, lines@.len())
    } else {
        Seq::empty()
    };
    lemma_piece_of_prompt(character_prompt, reason, lead, content, tail + memories);
    assert(lead + content + (tail + memories) == material(records@) + memories);
    assert(material(records@) + Seq::<char>::empty() == material(records@));
    let gathered = begun(display_name, character_prompt, reason, topic).next(
        DaydreamEvent::Records(records),
    );
    assert(gathered.0.material == material(records@));
    let place = (character_prompt + (TASK_HEAD@ + reason + TASK_TAIL@ + TASK_BODY@) + lead).len()
        as int;
    place
}

impl DaydreamView {
    /// The daydream after the events.
    pub open spec fn after(self, events: Seq<DaydreamEvent>) -> DaydreamView
        decreases events.len(),
    {
        if events.len() == 0 {
            self
        } else {
            self.next(events.first()).0.after(events.drop_first())
        }
    }
}

/// The model that draws insights failing `n` times in a row.
pub open spec fn failures(n: nat) -> Seq<DaydreamEvent> {
    Seq::new(n, |i: int| DaydreamEvent::Extracted(None))
}

proof fn lemma_failures(dream: DaydreamView, n: nat)
    requires
        dream.stage == Stage::Extracting,
        dream.attempts + n < EXTRACTION_ATTEMPTS,
    ensures
        dream.accepts(failures(n)),
        dream.after(failures(n)) == (DaydreamView { attempts: (dream.attempts + n) as u32, ..dream }),
    decreases n,
{
    if n > 0 {
        let after = dream.next(DaydreamEvent::Extracted(None)).0;
        assert(failures(n).drop_first() == failures((n - 1) as nat));
        lemma_failures(after, (n - 1) as nat);
    }
}

/// A daydream keeps whose it is, who it is, why and over what it daydreams, whatever happens, and
/// its monologue from the moment when it has one.
pub proof fn a_daydream_stays_its_own(dream: DaydreamView, event: DaydreamEvent)
    requires
        dream.expects(event),
    ensures
        dream.next(event).0.display_name == dream.display_name,
        dream.next(event).0.character_prompt == dream.character_prompt,
        dream.next(event).0.reason == dream.reason,
        dream.next(event).0.topic == dream.topic,
        dream.next(event).0.monologue == match event {
            DaydreamEvent::Mused(Ok(monologue)) => monologue@,
            _ => dream.monologue,
        },
{
}

/// A daydream begins with whose it is, who it is, why and over what it daydreams, all as given.
pub proof fn a_daydream_begins_as_it_is_called(
    display_name: Seq<char>,
    character_prompt: Seq<char>,
    reason: Seq<char>,
    topic: Option<Seq<char>>,
)
    ensures
        begun(display_name, character_prompt, reason, topic).display_name == display_name,
        begun(display_name, character_prompt, reason, topic).character_prompt == character_prompt,
        begun(display_name, character_prompt, reason, topic).reason == reason,
        begun(display_name, character_prompt, reason, topic).topic == topic,
        begun(display_name, character_prompt, reason, topic).stage == Stage::Looking,
{
}

/// Every monologue is searched for insights, and searched again in the same words after each of
/// the first four failures. After the fifth the daydream ends with the monologue.
pub proof fn a_failing_search_is_made_five_times(dream: DaydreamView, monologue: String, n: nat)
    requires
        dream.stage == Stage::Musing,
        n < 5,
    ensures
        ({
            let asked = dream.next(DaydreamEvent::Mused(Ok(monologue)));
            let waiting = asked.0.after(failures(n));
            let failed = waiting.next(DaydreamEvent::Extracted(None));
            &&& dream.expects(DaydreamEvent::Mused(Ok(monologue)))
            &&& asked.0.monologue == monologue@
            &&& asked.1 matches DaydreamActionView::Extract(messages) && messages.len() == 3
                && messages[0].speaker == Speaker::System && messages[0].content
                == EXTRACTION_HEAD@ + dream.character_prompt && messages[1].speaker
                == Speaker::User && messages[1].content == monologue@ && messages[2].speaker
                == Speaker::Assistant && messages[2].content == "{"@
            &&& asked.0.accepts(failures(n))
            &&& waiting.expects(DaydreamEvent::Extracted(None))
            &&& if n < 4 {
                failed.0.stage == Stage::Extracting && failed.1 == asked.1
            } else {
                failed.0.stage == Stage::Over && failed.1 == DaydreamActionView::Finish(
                    Ok(monologue@),
                )
            }
        }),
{
    lemma_failures(dream.next(DaydreamEvent::Mused(Ok(monologue))).0, n);
}

/// Whenever an answer comes with a list, every item of it that holds a text as its content and a
/// number as its importance is remembered as an opinion of the role, in order and each once.
/// Then the memory is consolidated by a fifth of a day, and the daydream ends with its monologue.
/// `source` tells at which places of the list stands what is remembered.
pub proof fn every_insight_is_remembered(
    dream: DaydreamView,
    monologue: String,
    n: nat,
    answer: String,
    document: JsonView,
    items: Seq<JsonView>,
) -> (source: Seq<int>)
    requires
        dream.stage == Stage::Musing,
        n < 5,
        answer@.len() > 0,
        parsed_document(
            if answer@[0] == '{' {
                answer@
            } else {
                seq!['{'] + answer@
            },
        ) == Some(document),
        document.get("insights"@) == Some(JsonView::List(items)),
    ensures
        ({
            let waiting = dream.next(DaydreamEvent::Mused(Ok(monologue))).0.after(failures(n));
            let remembering = waiting.next(DaydreamEvent::Extracted(Some(answer)));
            let consolidating = remembering.0.next(DaydreamEvent::Remembered);
            let over = consolidating.0.next(DaydreamEvent::Consolidated);
            &&& waiting.expects(DaydreamEvent::Extracted(Some(answer)))
            &&& remembering.0.expects(DaydreamEvent::Remembered)
            &&& consolidating.0.expects(DaydreamEvent::Consolidated)
            &&& remembering.1 matches DaydreamActionView::Remember(calls) && {
                &&& calls.len() == source.len()
                &&& forall|k: int|
                    0 <= k < calls.len() ==> {
                        &&& 0 <= #[trigger] source[k] < items.len()
                        &&& items[source[k]].get("content"@) == Some(
                            JsonView::Text(calls[k].summary),
                        )
                        &&& items[source[k]].get("importance"@) == Some(
                            JsonView::Number(calls[k].importance),
                        )
                        &&& calls[k].importance is Some
                        &&& calls[k].display_name == dream.display_name
                        &&& calls[k].memory_type == MemoryType::Opinion
                        &&& calls[k].namespace == Some("insight"@)
                    }
            }
            &&& forall|k: int, l: int|
                0 <= k < l < source.len() ==> #[trigger] source[k] < #[trigger] source[l]
            &&& forall|j: int, insight: InsightView|
                0 <= j < items.len() && !source.contains(j) ==> !#[trigger] says(items[j], insight)
            &&& consolidating.1 == DaydreamActionView::Consolidate(
                ConsolidateCallView {
                    display_name: dream.display_name,
                    days: 0x3fc9_9999_9999_999a,
                },
            )
            &&& over.0.stage == Stage::Over
            &&& over.1 == DaydreamActionView::Finish(Ok(monologue@))
        }),
{
    let waiting = dream.next(DaydreamEvent::Mused(Ok(monologue))).0.after(failures(n));
    lemma_failures(dream.next(DaydreamEvent::Mused(Ok(monologue))).0, n);
    only_a_missing_brace_is_put_back(answer@);
    documents_hold_a_list_of_insights(document, items);
    let insights = insights_among(items);
    let source = only_malformed_items_are_skipped(items);
    let calls = insight_calls(dream.display_name, insights);
    assert(waiting.next(DaydreamEvent::Extracted(Some(answer))).1 == DaydreamActionView::Remember(
        calls,
    ));
    assert forall|k: int| 0 <= k < calls.len() implies {
        &&& 0 <= #[trigger] source[k] < items.len()
        &&& items[source[k]].get("content"@) == Some(JsonView::Text(calls[k].summary))
        &&& items[source[k]].get("importance"@) == Some(JsonView::Number(calls[k].importance))
        &&& calls[k].importance is Some
        &&& calls[k].display_name == dream.display_name
        &&& calls[k].memory_type == MemoryType::Opinion
        &&& calls[k].namespace == Some("insight"@)
    } by {
        assert(says(items[source[k]], insights[k]));
    }
    source
}

/// An answer that is empty or no document leaves the monologue as all that comes of a daydream,
/// whenever it comes. A document without a list of insights is the one thing that aborts it.
pub proof fn only_a_document_without_a_list_aborts(
    dream: DaydreamView,
    monologue: String,
    n: nat,
    answer: String,
)
    requires
        dream.stage == Stage::Musing,
        n < 5,
    ensures
        ({
            let waiting = dream.next(DaydreamEvent::Mused(Ok(monologue))).0.after(failures(n));
            let answered = waiting.next(DaydreamEvent::Extracted(Some(answer)));
            let document = parsed_document(
                if answer@.len() > 0 && answer@[0] == '{' {
                    answer@
                } else {
                    seq!['{'] + answer@
                },
            );
            &&& answer@.len() == 0 || document is None ==> answered.0.stage == Stage::Over
                && answered.1 == DaydreamActionView::Finish(Ok(monologue@))
            &&& answer@.len() > 0 && document is Some ==> {
                let listed = document.unwrap().get("insights"@) matches Some(list)
                    && list is List;
                &&& listed <==> answered.1 is Remember
                &&& !listed <==> answered.1 is Abort
            }
        }),
{
    lemma_failures(dream.next(DaydreamEvent::Mused(Ok(monologue))).0, n);
    only_a_missing_brace_is_put_back(answer@);
    let whole = completed(answer@);
    if let Some(document) = parsed_document(whole) {
        documents_hold_a_list_of_insights(document, Seq::empty());
    }
}

/// Given insights, a daydream has every one of them remembered as an opinion of its role, in
/// order, in words and importance as they are.
pub proof fn insights_are_remembered_as_they_are(
    dream: DaydreamView,
    insights: Seq<InsightView>,
)
    ensures
        dream.conclude(InsightReadingView::Insights(insights)).0.stage == Stage::Remembering,
        dream.conclude(InsightReadingView::Insights(insights)).1 matches
            DaydreamActionView::Remember(calls) && calls.len() == insights.len() && forall|k: int|
            0 <= k < calls.len() ==> {
                &&& (#[trigger] calls[k]).display_name == dream.display_name
                &&& calls[k].summary == insights[k].content
                &&& calls[k].memory_type == MemoryType::Opinion
                &&& calls[k].importance == Some(insights[k].importance)
                &&& calls[k].namespace == Some("insight"@)
            },
        dream.conclude(InsightReadingView::NotJson).1 == DaydreamActionView::Finish(
            Ok(dream.monologue),
        ),
        dream.conclude(InsightReadingView::NoList).1 is Abort,
{
}

/// Without a model, or where the model fails, musing ends the daydream, and the error says why.
pub proof fn a_daydream_without_a_monologue_fails(dream: DaydreamView, why: String)
    requires
        dream.stage == Stage::Musing,
    ensures
        dream.next(DaydreamEvent::NoModel).0.stage == Stage::Over,
        dream.next(DaydreamEvent::NoModel).1 == DaydreamActionView::Finish(
            Err(DaydreamErrorView::NoModel),
        ),
        dream.next(DaydreamEvent::Mused(Err(why))).0.stage == Stage::Over,
        dream.next(DaydreamEvent::Mused(Err(why))).1 == DaydreamActionView::Finish(
            Err(DaydreamErrorView::ModelFailed(why@)),
        ),
        dream.expects(DaydreamEvent::NoModel),
        dream.expects(DaydreamEvent::Mused(Err(why))),
        DaydreamErrorView::EmptyReason.message() == "reason 不能为空"@,
        DaydreamErrorView::NoModel.message() == "发呆 LLM 槽位未配置！"@,
        DaydreamErrorView::ModelFailed(why@).message() == why@,
{
}

/// An action shows every message and every call that it holds, each in its place and with all of
/// its contents.
pub proof fn actions_show_all_they_hold(action: DaydreamAction)
    ensures
        match action {
            DaydreamAction::Look(call) => action@ == DaydreamActionView::Look(call@),
            DaydreamAction::Recall(call) => action@ == DaydreamActionView::Recall(call@),
            DaydreamAction::Muse(messages) => action@ matches DaydreamActionView::Muse(view)
                && view.len() == messages@.len() && forall|i: int|
                0 <= i < view.len() ==> (#[trigger] view[i]).speaker == messages@[i].speaker
                    && view[i].content == messages@[i].content@,
            DaydreamAction::Extract(messages) => action@ matches DaydreamActionView::Extract(view)
                && view.len() == messages@.len() && forall|i: int|
                0 <= i < view.len() ==> (#[trigger] view[i]).speaker == messages@[i].speaker
                    && view[i].content == messages@[i].content@,
            DaydreamAction::Remember(calls) => action@ matches DaydreamActionView::Remember(view)
                && view.len() == calls@.len() && forall|i: int|
                0 <= i < view.len() ==> #[trigger] view[i] == calls@[i]@,
            DaydreamAction::Consolidate(call) => action@ matches DaydreamActionView::Consolidate(
                view,
            ) && view.display_name == call.display_name@ && view.days == call.days,
            DaydreamAction::Finish(Ok(monologue)) => action@ == DaydreamActionView::Finish(
                Ok(monologue@),
            ),
            DaydreamAction::Finish(Err(DaydreamError::ModelFailed(why))) => action@
                == DaydreamActionView::Finish(Err(DaydreamErrorView::ModelFailed(why@))),
            DaydreamAction::Finish(Err(DaydreamError::NoModel)) => action@
                == DaydreamActionView::Finish(Err(DaydreamErrorView::NoModel)),
            DaydreamAction::Finish(Err(DaydreamError::EmptyReason)) => action@
                == DaydreamActionView::Finish(Err(DaydreamErrorView::EmptyReason)),
            DaydreamAction::Abort => action@ is Abort,
        },
{
}

} // verus!
