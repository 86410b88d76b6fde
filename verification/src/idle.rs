//! The tool by which a role starts to daydream.

use crate::json::{
    find_member, items_view, lemma_list_view, lemma_object_view, members_are_found_by_their_keys,
    members_view, value_contents, Json, JsonView,
};
use crate::text::opt_text;
use vstd::prelude::*;

verus! {

/// Why a tool did not do its work.
#[derive(Debug, PartialEq, Eq)]
pub enum ToolError {
    /// The arguments are not what the tool takes.
    InvalidArguments(String),
    /// The work itself failed.
    Execution(String),
}

/// Why a tool did not do its work, in specifications.
pub enum ToolErrorView {
    InvalidArguments(Seq<char>),
    Execution(Seq<char>),
}

impl View for ToolError {
    type V = ToolErrorView;

    open spec fn view(&self) -> ToolErrorView {
        match self {
            ToolError::InvalidArguments(why) => ToolErrorView::InvalidArguments(why@),
            ToolError::Execution(why) => ToolErrorView::Execution(why@),
        }
    }
}

/// How a tool presents itself to a language model.
#[derive(Debug, PartialEq, Eq)]
pub struct ToolDefinition {
    pub name: String,
    pub description: String,
    pub parameters: Json,
}

/// The name of the tool.
pub const IDLE_NAME: &'static str = "idle";

/// What the tool is for.
pub const IDLE_DESCRIPTION: &'static str = "开始发呆。当你不想说话，或者想深度思考/回忆时，请使用此工具。";

/// What the argument `reason` is for.
pub const REASON_DESCRIPTION: &'static str = "发呆原因（如无聊，没事做），随便回答即可。可以加入发呆的具体内容，比如思考某个问题（如：想思考如何解决哥德巴赫猜想）。";

/// What the argument `topic` is for.
pub const TOPIC_DESCRIPTION: &'static str = "想要思考的主题（可选），发呆时会回想起相关记忆";

/// What a role is told when its daydream is over.
pub const DONE_INFO: &'static str = "发呆已完成。用户不应看见你的内心独白 \"monologue\"，所以你不必汇报此次工具结果。";

/// The seconds that a daydream may take.
pub const IDLE_TIMEOUT_SECS: u64 = 180;

/// The schema of an argument that is a text.
pub open spec fn text_schema(description: Seq<char>) -> JsonView {
    JsonView::Object(
        seq![
            ("type"@, JsonView::Text("string"@)),
            ("description"@, JsonView::Text(description)),
        ],
    )
}

/// The schema of the tool's arguments: a reason, which must be given, and a topic.
pub open spec fn idle_schema() -> JsonView {
    JsonView::Object(
        seq![
            ("type"@, JsonView::Text("object"@)),
            (
                "properties"@,
                JsonView::Object(
                    seq![
                        ("reason"@, text_schema(REASON_DESCRIPTION@)),
                        ("topic"@, text_schema(TOPIC_DESCRIPTION@)),
                    ],
                ),
            ),
            ("required"@, JsonView::List(seq![JsonView::Text("reason"@)])),
            ("additionalProperties"@, JsonView::Bool(false)),
        ],
    )
}

/// An object with two members.
fn object_of_two(key: &str, value: Json, other_key: &str, other_value: Json) -> (object: Json)
    ensures
        object@ == JsonView::Object(seq![(key@, value@), (other_key@, other_value@)]),
{
    let mut members: Vec<(String, Json)> = Vec::new();
    members.push((key.to_string(), value));
    members.push((other_key.to_string(), other_value));
    assert(members_view(members@) == seq![(key@, value@), (other_key@, other_value@)]);
    proof {
        lemma_object_view(members);
    }
    Json::Object(members)
}

/// The schema of an argument that is a text.
fn describe_text(description: &str) -> (schema: Json)
    ensures
        schema@ == text_schema(description@),
{
    object_of_two(
        "type",
        Json::Text("string".to_string()),
        "description",
        Json::Text(description.to_string()),
    )
}

/// Arguments that must be an object are one, or the tool complains by its name.
pub fn require_object<'a>(arguments: &'a Json, tool: &str) -> (members: Result<
    &'a Vec<(String, Json)>,
    ToolError,
>)
    ensures
        match members {
            Ok(members) => arguments@ == JsonView::Object(members_view(members@)),
            Err(error) => !(arguments@ is Object) && error@ == ToolErrorView::InvalidArguments(
                tool@ + " 参数必须是 JSON object"@,
            ),
        },
{
    match arguments {
        Json::Object(members) => {
            proof {
                lemma_object_view(*members);
            }
            Ok(members)
        },
        _ => Err(
            ToolError::InvalidArguments(tool.to_string().concat(" 参数必须是 JSON object")),
        ),
    }
}

/// The text of an argument, if it is given and is a text.
pub open spec fn text_argument(arguments: JsonView, key: Seq<char>) -> Option<Seq<char>> {
    match arguments.get(key) {
        Some(value) => value.as_text(),
        None => None,
    }
}

/// The text of an argument, if it is given and is a text.
fn read_text_argument(members: &Vec<(String, Json)>, key: &str) -> (text: Option<String>)
    ensures
        opt_text(text) == text_argument(JsonView::Object(members_view(members@)), key@),
{
    match crate::json::find(members, key) {
        Some(value) => match value.as_text() {
            Some(text) => Some(text.clone()),
            None => None,
        },
        None => None,
    }
}

/// The reason and the topic that the arguments give, or why they are not taken.
pub open spec fn idle_arguments(arguments: JsonView) -> Result<
    (Seq<char>, Option<Seq<char>>),
    ToolErrorView,
> {
    if !(arguments is Object) {
        Err(ToolErrorView::InvalidArguments(IDLE_NAME@ + " 参数必须是 JSON object"@))
    } else {
        match text_argument(arguments, "reason"@) {
            Some(reason) => Ok((reason, text_argument(arguments, "topic"@))),
            None => Err(ToolErrorView::InvalidArguments("idle 需要 reason"@)),
        }
    }
}

/// What a run of the tool waits for.
#[derive(Clone, Copy, Debug, PartialEq, Eq, Structural)]
pub enum IdleStage {
    /// The application.
    App,
    /// The role of the current dialogue.
    CurrentRole,
    /// That role's name.
    Role,
    /// That role's prompt.
    SystemPrompt,
    /// The model of the dialogue.
    Model,
    /// The daydream.
    Dream,
    /// Nothing: it is over.
    Over,
}

/// What a run of the tool wants done.
#[derive(Debug, PartialEq, Eq)]
pub enum IdleAction {
    /// Get hold of the application.
    RequireApp,
    /// Look up the role of the current dialogue.
    ReadCurrentRole,
    /// Load a role.
    LoadRole(i64),
    /// Look up the current role's prompt.
    ReadSystemPrompt,
    /// Get hold of the model of the dialogue.
    TakeModel,
    /// Daydream.
    Dream {
        display_name: String,
        character_prompt: String,
        reason: String,
        topic: Option<String>,
    },
    /// End with a result or an error.
    Finish(Result<Json, ToolError>),
}

/// What a run of the tool wants done, in specifications.
pub enum IdleActionView {
    RequireApp,
    ReadCurrentRole,
    LoadRole(i64),
    ReadSystemPrompt,
    TakeModel,
    Dream {
        display_name: Seq<char>,
        character_prompt: Seq<char>,
        reason: Seq<char>,
        topic: Option<Seq<char>>,
    },
    Finish(Result<JsonView, ToolErrorView>),
}

impl View for IdleAction {
    type V = IdleActionView;

    open spec fn view(&self) -> IdleActionView {
        match self {
            IdleAction::RequireApp => IdleActionView::RequireApp,
            IdleAction::ReadCurrentRole => IdleActionView::ReadCurrentRole,
            IdleAction::LoadRole(id) => IdleActionView::LoadRole(*id),
            IdleAction::ReadSystemPrompt => IdleActionView::ReadSystemPrompt,
            IdleAction::TakeModel => IdleActionView::TakeModel,
            IdleAction::Dream { display_name, character_prompt, reason, topic } =>
                IdleActionView::Dream {
                display_name: display_name@,
                character_prompt: character_prompt@,
                reason: reason@,
                topic: opt_text(*topic),
            },
            IdleAction::Finish(Ok(result)) => IdleActionView::Finish(Ok(result@)),
            IdleAction::Finish(Err(error)) => IdleActionView::Finish(Err(error@)),
        }
    }
}

/// How it went what a run of the tool wanted done.
#[derive(Debug, PartialEq, Eq)]
pub enum IdleEvent {
    /// The application is there.
    AppReady,
    /// The application is not there.
    AppRefused(ToolError),
    /// The role of the current dialogue, if there is one.
    CurrentRole(Option<i64>),
    /// The loaded role's name, if it has one, or why it could not be loaded.
    Role(Result<Option<String>, String>),
    /// The current role's prompt, if it has one.
    SystemPrompt(Option<String>),
    /// The model of the dialogue is there.
    ModelReady,
    /// There is no model of the dialogue.
    NoModel,
    /// The monologue, or why the daydream came to nothing.
    Dreamt(Result<String, String>),
}

/// A run of the tool on its way.
#[derive(Debug, PartialEq, Eq)]
pub struct IdleRun {
    reason: String,
    topic: Option<String>,
    display_name: String,
    character_prompt: String,
    stage: IdleStage,
}

/// A run of the tool on its way, in specifications.
pub struct IdleRunView {
    pub reason: Seq<char>,
    pub topic: Option<Seq<char>>,
    pub display_name: Seq<char>,
    pub character_prompt: Seq<char>,
    pub stage: IdleStage,
}

impl View for IdleRun {
    type V = IdleRunView;

    closed spec fn view(&self) -> IdleRunView {
        IdleRunView {
            reason: self.reason@,
            topic: opt_text(self.topic),
            display_name: self.display_name@,
            character_prompt: self.character_prompt@,
            stage: self.stage,
        }
    }
}

/// The result of the tool.
pub open spec fn idle_result(monologue: Seq<char>) -> JsonView {
    JsonView::Object(
        seq![
            ("info"@, JsonView::Text(DONE_INFO@)),
            ("monologue"@, JsonView::Text(monologue)),
        ],
    )
}

impl IdleRunView {
    /// Whether the event is an answer to what the run waits for.
    pub open spec fn expects(self, event: IdleEvent) -> bool {
        match self.stage {
            IdleStage::App => event is AppReady || event is AppRefused,
            IdleStage::CurrentRole => event is CurrentRole,
            IdleStage::Role => event is Role,
            IdleStage::SystemPrompt => event is SystemPrompt,
            IdleStage::Model => event is ModelReady || event is NoModel,
            IdleStage::Dream => event is Dreamt,
            IdleStage::Over => false,
        }
    }

    /// The run at another stage.
    pub open spec fn at(self, stage: IdleStage) -> IdleRunView {
        IdleRunView { stage, ..self }
    }

    /// The run ends with an error of execution.
    pub open spec fn fail(self, why: Seq<char>) -> (IdleRunView, IdleActionView) {
        (
            self.at(IdleStage::Over),
            IdleActionView::Finish(Err(ToolErrorView::Execution(why))),
        )
    }

    /// How the run goes on after an event, and what it wants done then.
    pub open spec fn next(self, event: IdleEvent) -> (IdleRunView, IdleActionView) {
        match event {
            IdleEvent::AppReady => (
                self.at(IdleStage::CurrentRole),
                IdleActionView::ReadCurrentRole,
            ),
            IdleEvent::AppRefused(error) => (
                self.at(IdleStage::Over),
                IdleActionView::Finish(Err(error@)),
            ),
            IdleEvent::CurrentRole(Some(id)) => (
                self.at(IdleStage::Role),
                IdleActionView::LoadRole(id),
            ),
            IdleEvent::CurrentRole(None) => self.fail("当前没有对话角色"@),
            IdleEvent::Role(Ok(Some(name))) => (
                IdleRunView { display_name: name@, ..self }.at(IdleStage::SystemPrompt),
                IdleActionView::ReadSystemPrompt,
            ),
            IdleEvent::Role(Ok(None)) => self.fail("当前角色没有展示名"@),
            IdleEvent::Role(Err(why)) => self.fail("获取当前角色失败: "@ + why@),
            IdleEvent::SystemPrompt(Some(prompt)) => (
                IdleRunView { character_prompt: prompt@, ..self }.at(IdleStage::Model),
                IdleActionView::TakeModel,
            ),
            IdleEvent::SystemPrompt(None) => self.fail("当前角色没有 system_prompt"@),
            IdleEvent::ModelReady => (
                self.at(IdleStage::Dream),
                IdleActionView::Dream {
                    display_name: self.display_name,
                    character_prompt: self.character_prompt,
                    reason: self.reason,
                    topic: self.topic,
                },
            ),
            IdleEvent::NoModel => self.fail("LLM 未配置"@),
            IdleEvent::Dreamt(Ok(monologue)) => (
                self.at(IdleStage::Over),
                IdleActionView::Finish(Ok(idle_result(monologue@))),
            ),
            IdleEvent::Dreamt(Err(why)) => self.fail("发呆失败: "@ + why@),
        }
    }
}

/// A run that has just begun.
pub open spec fn idle_begun(reason: Seq<char>, topic: Option<Seq<char>>) -> IdleRunView {
    IdleRunView {
        reason,
        topic,
        display_name: Seq::empty(),
        character_prompt: Seq::empty(),
        stage: IdleStage::App,
    }
}

/// Whether `begin` is how the tool begins with the arguments: by asking for the application
/// where they are taken, and with the error where they are not.
pub open spec fn begins(
    arguments: JsonView,
    begin: Result<(IdleRun, IdleAction), ToolError>,
) -> bool {
    match idle_arguments(arguments) {
        Ok((reason, topic)) => begin matches Ok((run, action)) && run@ == idle_begun(
            reason,
            topic,
        ) && action@ == IdleActionView::RequireApp,
        Err(error) => begin matches Err(e) && e@ == error,
    }
}

/// The tool by which a role starts to daydream.
pub struct Idle;

impl Idle {
    /// How the tool presents itself.
    pub fn definition(&self) -> (definition: ToolDefinition)
        ensures
            definition.name@ == IDLE_NAME@,
            definition.description@ == IDLE_DESCRIPTION@,
            definition.parameters@ == idle_schema(),
    {
        let properties: Json = object_of_two(
            "reason",
            describe_text(REASON_DESCRIPTION),
            "topic",
            describe_text(TOPIC_DESCRIPTION),
        );
        let mut required: Vec<Json> = Vec::new();
        required.push(Json::Text("reason".to_string()));
        let mut members: Vec<(String, Json)> = Vec::new();
        members.push(("type".to_string(), Json::Text("object".to_string())));
        members.push(("properties".to_string(), properties));
        members.push(("required".to_string(), Json::List(required)));
        members.push(("additionalProperties".to_string(), Json::Bool(false)));
        proof {
            lemma_list_view(required);
            assert(items_view(required@) == seq![JsonView::Text("reason"@)]);
            lemma_object_view(members);
            assert(members_view(members@) == idle_schema()->Object_0);
        }
        ToolDefinition {
            name: IDLE_NAME.to_string(),
            description: IDLE_DESCRIPTION.to_string(),
            parameters: Json::Object(members),
        }
    }

    /// The seconds after which a run of the tool may be given up.
    pub fn timeout_hint(&self) -> (secs: Option<u64>)
        ensures
            secs == Some(IDLE_TIMEOUT_SECS),
    {
        Some(IDLE_TIMEOUT_SECS)
    }

    /// Begins a run of the tool, and says what it wants done first.
    pub fn execute(&self, arguments: &serde_json::Value) -> (begin: Result<
        (IdleRun, IdleAction),
        ToolError,
    >)
        ensures
            begins(value_contents(*arguments), begin),
    {
        self.begin(&Json::from_value(arguments))
    }

    /// Begins a run of the tool, and says what it wants done first.
    pub fn begin(&self, arguments: &Json) -> (begin: Result<(IdleRun, IdleAction), ToolError>)
        ensures
            begins(arguments@, begin),
    {
        let members: &Vec<(String, Json)> = match require_object(arguments, IDLE_NAME) {
            Ok(members) => members,
            Err(error) => {
                return Err(error);
            },
        };
        let reason: String = match read_text_argument(members, "reason") {
            Some(reason) => reason,
            None => {
                return Err(ToolError::InvalidArguments("idle 需要 reason".to_string()));
            },
        };
        let run: IdleRun = IdleRun {
            reason,
            topic: read_text_argument(members, "topic"),
            display_name: String::new(),
            character_prompt: String::new(),
            stage: IdleStage::App,
        };
        Ok((run, IdleAction::RequireApp))
    }
}

impl IdleRun {
    /// What the run waits for.
    pub fn stage(&self) -> (stage: IdleStage)
        ensures
            stage == self@.stage,
    {
        self.stage
    }

    /// The run ends with an error of execution.
    fn fail(&mut self, why: String) -> (action: IdleAction)
        ensures
            (final(self)@, action@) == old(self)@.fail(why@),
    {
        self.stage = IdleStage::Over;
        IdleAction::Finish(Err(ToolError::Execution(why)))
    }

    /// Takes note of an event, goes on, and says what is wanted then.
    pub fn step(&mut self, event: IdleEvent) -> (action: IdleAction)
        requires
            old(self)@.expects(event),
        ensures
            (final(self)@, action@) == old(self)@.next(event),
    {
        match event {
            IdleEvent::AppReady => {
                self.stage = IdleStage::CurrentRole;
                IdleAction::ReadCurrentRole
            },
            IdleEvent::AppRefused(error) => {
                self.stage = IdleStage::Over;
                IdleAction::Finish(Err(error))
            },
            IdleEvent::CurrentRole(Some(id)) => {
                self.stage = IdleStage::Role;
                IdleAction::LoadRole(id)
            },
            IdleEvent::CurrentRole(None) => self.fail("当前没有对话角色".to_string()),
            IdleEvent::Role(Ok(Some(name))) => {
                self.display_name = name;
                self.stage = IdleStage::SystemPrompt;
                IdleAction::ReadSystemPrompt
            },
            IdleEvent::Role(Ok(None)) => self.fail("当前角色没有展示名".to_string()),
            IdleEvent::Role(Err(why)) => {
                self.fail("获取当前角色失败: ".to_string().concat(why.as_str()))
            },
            IdleEvent::SystemPrompt(Some(prompt)) => {
                self.character_prompt = prompt;
                self.stage = IdleStage::Model;
                IdleAction::TakeModel
            },
            IdleEvent::SystemPrompt(None) => {
                self.fail("当前角色没有 system_prompt".to_string())
            },
            IdleEvent::ModelReady => {
                self.stage = IdleStage::Dream;
                IdleAction::Dream {
                    display_name: self.display_name.clone(),
                    character_prompt: self.character_prompt.clone(),
                    reason: self.reason.clone(),
                    topic: match &self.topic {
                        Some(topic) => Some(topic.clone()),
                        None => None,
                    },
                }
            },
            IdleEvent::NoModel => self.fail("LLM 未配置".to_string()),
            IdleEvent::Dreamt(Ok(monologue)) => {
                self.stage = IdleStage::Over;
                IdleAction::Finish(
                    Ok(
                        object_of_two(
                            "info",
                            Json::Text(DONE_INFO.to_string()),
                            "monologue",
                            Json::Text(monologue),
                        ),
                    ),
                )
            },
            IdleEvent::Dreamt(Err(why)) => {
                self.fail("发呆失败: ".to_string().concat(why.as_str()))
            },
        }
    }
}

impl IdleRunView {
    /// The most events that can still come.
    pub open spec fn events_left(self) -> nat {
        match self.stage {
            IdleStage::App => 6,
            IdleStage::CurrentRole => 5,
            IdleStage::Role => 4,
            IdleStage::SystemPrompt => 3,
            IdleStage::Model => 2,
            IdleStage::Dream => 1,
            IdleStage::Over => 0,
        }
    }
}

/// Every event brings a run nearer to its end, it is over exactly when it says so, and what it
/// was asked to daydream about stays as it is.
pub proof fn every_event_brings_a_run_nearer_to_its_end(run: IdleRunView, event: IdleEvent)
    requires
        run.expects(event),
    ensures
        run.next(event).0.events_left() < run.events_left() <= 6,
        run.next(event).0.stage == IdleStage::Over <==> run.next(event).1 is Finish,
        run.next(event).0.reason == run.reason,
        run.next(event).0.topic == run.topic,
{
}

/// A run that is refused nothing daydreams as the current role, by that role's prompt, for the
/// reason and on the topic of the arguments.
pub proof fn an_unhindered_run_daydreams(
    reason: Seq<char>,
    topic: Option<Seq<char>>,
    id: i64,
    name: String,
    prompt: String,
)
    ensures
        ({
            let run0 = idle_begun(reason, topic);
            let run1 = run0.next(IdleEvent::AppReady).0;
            let run2 = run1.next(IdleEvent::CurrentRole(Some(id))).0;
            let run3 = run2.next(IdleEvent::Role(Ok(Some(name)))).0;
            let run4 = run3.next(IdleEvent::SystemPrompt(Some(prompt))).0;
            &&& run0.expects(IdleEvent::AppReady)
            &&& run1.expects(IdleEvent::CurrentRole(Some(id)))
            &&& run1.next(IdleEvent::CurrentRole(Some(id))).1 == IdleActionView::LoadRole(id)
            &&& run2.expects(IdleEvent::Role(Ok(Some(name))))
            &&& run3.expects(IdleEvent::SystemPrompt(Some(prompt)))
            &&& run4.expects(IdleEvent::ModelReady)
            &&& run4.next(IdleEvent::ModelReady).1 == IdleActionView::Dream {
                display_name: name@,
                character_prompt: prompt@,
                reason,
                topic,
            }
        }),
{
}

/// A run ends well only with a monologue, and its result holds that monologue.
pub proof fn results_hold_the_monologue(run: IdleRunView, event: IdleEvent)
    requires
        run.expects(event),
    ensures
        run.next(event).1 matches IdleActionView::Finish(Ok(result)) ==> {
            &&& event matches IdleEvent::Dreamt(Ok(monologue)) && result.get("monologue"@) == Some(
                JsonView::Text(monologue@),
            )
            &&& result.get("info"@) == Some(JsonView::Text(DONE_INFO@))
        },
{
    reveal_strlit("info");
    reveal_strlit("monologue");
    reveal_with_fuel(find_member, 3);
    assert("info"@.len() != "monologue"@.len());
    if let IdleEvent::Dreamt(Ok(monologue)) = event {
        let members = idle_result(monologue@)->Object_0;
        assert(members.drop_first()[0] == members[1]);
    }
}

/// Arguments that are taken have everything that the definition requires, each of the type that
/// it gives.
pub proof fn taken_arguments_meet_the_definition(arguments: JsonView)
    requires
        idle_arguments(arguments) is Ok,
    ensures
        arguments is Object,
        idle_schema().get("type"@) == Some(JsonView::Text("object"@)),
        idle_schema().get("required"@) matches Some(JsonView::List(required)) && forall|i: int|
            0 <= i < required.len() ==> {
                &&& #[trigger] required[i] is Text
                &&& text_argument(arguments, required[i]->Text_0) is Some
                &&& idle_schema().get("properties"@) matches Some(properties)
                    && properties.get(required[i]->Text_0) matches Some(schema) && schema.get(
                    "type"@,
                ) == Some(JsonView::Text("string"@))
            },
{
    reveal_strlit("type");
    reveal_strlit("properties");
    reveal_strlit("required");
    reveal_with_fuel(find_member, 4);
    let members = idle_schema()->Object_0;
    assert("type"@.len() == 4);
    assert("properties"@.len() == 10);
    assert("required"@.len() == 8);
    assert(members.drop_first()[0] == members[1]);
    assert(members.drop_first().drop_first()[0] == members[2]);
}

/// The tool takes every object whose `reason` is a text, with that text as the reason and with
/// the text of `topic` as the topic, if that is one. It takes nothing else, and says what is
/// wrong.
pub proof fn every_reason_is_taken(
    arguments: JsonView,
    begin: Result<(IdleRun, IdleAction), ToolError>,
)
    requires
        begins(arguments, begin),
    ensures
        match arguments.get("reason"@) {
            Some(JsonView::Text(reason)) => begin matches Ok((run, action)) && {
                &&& run@.reason == reason
                &&& run@.topic == match arguments.get("topic"@) {
                    Some(JsonView::Text(topic)) => Some(topic),
                    _ => None,
                }
                &&& run@.stage == IdleStage::App
                &&& action is RequireApp
            },
            _ => begin matches Err(ToolError::InvalidArguments(why)) && why@ == if arguments
                is Object {
                "idle 需要 reason"@
            } else {
                "idle 参数必须是 JSON object"@
            },
        },
{
    reveal_strlit("idle");
    reveal_strlit(" 参数必须是 JSON object");
    reveal_strlit("idle 参数必须是 JSON object");
    assert(IDLE_NAME@ + " 参数必须是 JSON object"@ == "idle 参数必须是 JSON object"@);
}

/// Every monologue, however long, is a result: two members, of which one is all of the monologue
/// and the other tells the role what to make of it.
pub proof fn every_monologue_is_a_result(run: IdleRunView, monologue: String)
    requires
        run.stage == IdleStage::Dream,
    ensures
        run.expects(IdleEvent::Dreamt(Ok(monologue))),
        run.next(IdleEvent::Dreamt(Ok(monologue))).0.stage == IdleStage::Over,
        run.next(IdleEvent::Dreamt(Ok(monologue))).1 matches IdleActionView::Finish(Ok(result)) && {
            &&& result matches JsonView::Object(members) && members.len() == 2
            &&& result.get("monologue"@) == Some(JsonView::Text(monologue@))
            &&& result.get("info"@) == Some(
                JsonView::Text(
                    "发呆已完成。用户不应看见你的内心独白 \"monologue\"，所以你不必汇报此次工具结果。"@,
                ),
            )
        },
{
    results_hold_the_monologue(run, IdleEvent::Dreamt(Ok(monologue)));
}

/// A run takes every answer to what it asked for, be it good or bad.
pub proof fn a_run_takes_every_answer(run: IdleRunView, event: IdleEvent)
    ensures
        event is AppReady || event is AppRefused ==> (run.expects(event) <==> run.stage
            == IdleStage::App),
        event is CurrentRole ==> (run.expects(event) <==> run.stage == IdleStage::CurrentRole),
        event is Role ==> (run.expects(event) <==> run.stage == IdleStage::Role),
        event is SystemPrompt ==> (run.expects(event) <==> run.stage == IdleStage::SystemPrompt),
        event is ModelReady || event is NoModel ==> (run.expects(event) <==> run.stage
            == IdleStage::Model),
        event is Dreamt ==> (run.expects(event) <==> run.stage == IdleStage::Dream),
{
}

/// A run ends with an error where it is refused anything, and the error says what, with the
/// reason that was given for it.
pub proof fn refusals_are_told(run: IdleRunView, event: IdleEvent)
    requires
        run.expects(event),
    ensures
        ({
            let refused = match event {
                IdleEvent::AppRefused(error) => Some(error@),
                IdleEvent::CurrentRole(None) => Some(
                    ToolErrorView::Execution("当前没有对话角色"@),
                ),
                IdleEvent::Role(Ok(None)) => Some(
                    ToolErrorView::Execution("当前角色没有展示名"@),
                ),
                IdleEvent::Role(Err(why)) => Some(
                    ToolErrorView::Execution("获取当前角色失败: "@ + why@),
                ),
                IdleEvent::SystemPrompt(None) => Some(
                    ToolErrorView::Execution("当前角色没有 system_prompt"@),
                ),
                IdleEvent::NoModel => Some(ToolErrorView::Execution("LLM 未配置"@)),
                IdleEvent::Dreamt(Err(why)) => Some(
                    ToolErrorView::Execution("发呆失败: "@ + why@),
                ),
                _ => None,
            };
            match refused {
                Some(error) => run.next(event).0.stage == IdleStage::Over && run.next(event).1
                    == IdleActionView::Finish(Err(error)),
                None => !(run.next(event).1 matches IdleActionView::Finish(Err(_))),
            }
        }),
{
}

/// A run asks for the application, the role of the dialogue, that role's name, its prompt and the
/// model, one after another, and keeps what it has learned until it daydreams.
pub proof fn a_run_asks_for_one_thing_after_another(
    run: IdleRunView,
    id: i64,
    name: String,
    prompt: String,
)
    ensures
        run.stage == IdleStage::App ==> run.next(IdleEvent::AppReady) == (
            (IdleRunView { stage: IdleStage::CurrentRole, ..run }),
            IdleActionView::ReadCurrentRole,
        ),
        run.stage == IdleStage::CurrentRole ==> run.next(IdleEvent::CurrentRole(Some(id))) == (
            (IdleRunView { stage: IdleStage::Role, ..run }),
            IdleActionView::LoadRole(id),
        ),
        run.stage == IdleStage::Role ==> run.next(IdleEvent::Role(Ok(Some(name)))) == (
            (IdleRunView { stage: IdleStage::SystemPrompt, display_name: name@, ..run }),
            IdleActionView::ReadSystemPrompt,
        ),
        run.stage == IdleStage::SystemPrompt ==> run.next(IdleEvent::SystemPrompt(Some(prompt)))
            == (
            (IdleRunView { stage: IdleStage::Model, character_prompt: prompt@, ..run }),
            IdleActionView::TakeModel,
        ),
        run.stage == IdleStage::Model ==> run.next(IdleEvent::ModelReady).1 == (
        IdleActionView::Dream {
            display_name: run.display_name,
            character_prompt: run.character_prompt,
            reason: run.reason,
            topic: run.topic,
        }),
{
}

/// The definition asks for an object with a reason, which must be given, and a topic, which may
/// be: both of them texts, each with a description of its own. It allows nothing else.
pub proof fn the_definition_asks_for_a_reason_and_a_topic(key: Seq<char>)
    ensures
        idle_schema().get("type"@) == Some(JsonView::Text("object"@)),
        idle_schema().get("required"@) == Some(JsonView::List(seq![JsonView::Text("reason"@)])),
        idle_schema().get("additionalProperties"@) == Some(JsonView::Bool(false)),
        idle_schema().get("properties"@) matches Some(properties) && {
            &&& properties.get(key) is Some <==> key == "reason"@ || key == "topic"@
            &&& properties.get(key) matches Some(schema) ==> {
                &&& schema.get("type"@) == Some(JsonView::Text("string"@))
                &&& schema.get("description"@) == Some(
                    JsonView::Text(
                        if key == "reason"@ {
                            REASON_DESCRIPTION@
                        } else {
                            TOPIC_DESCRIPTION@
                        },
                    ),
                )
            }
        },
{
    reveal_strlit("type");
    reveal_strlit("properties");
    reveal_strlit("required");
    reveal_strlit("additionalProperties");
    reveal_strlit("reason");
    reveal_strlit("topic");
    reveal_strlit("description");
    assert("type"@.len() == 4);
    assert("properties"@.len() == 10);
    assert("required"@.len() == 8);
    assert("additionalProperties"@.len() == 20);
    assert("reason"@.len() == 6);
    assert("topic"@.len() == 5);
    assert("description"@.len() == 11);
    let members = idle_schema()->Object_0;
    assert(members[0].0 == "type"@ && members[1].0 == "properties"@ && members[2].0
        == "required"@ && members[3].0 == "additionalProperties"@);
    members_are_found_by_their_keys(members, "type"@);
    members_are_found_by_their_keys(members, "properties"@);
    members_are_found_by_their_keys(members, "required"@);
    members_are_found_by_their_keys(members, "additionalProperties"@);
    let properties = members[1].1->Object_0;
    assert(properties[0].0 == "reason"@ && properties[1].0 == "topic"@);
    members_are_found_by_their_keys(properties, key);
    let reason = properties[0].1->Object_0;
    assert(reason[0].0 == "type"@ && reason[1].0 == "description"@);
    members_are_found_by_their_keys(reason, "type"@);
    members_are_found_by_their_keys(reason, "description"@);
    let topic = properties[1].1->Object_0;
    assert(topic[0].0 == "type"@ && topic[1].0 == "description"@);
    members_are_found_by_their_keys(topic, "type"@);
    members_are_found_by_their_keys(topic, "description"@);
}

/// An action shows all that it holds.
pub proof fn actions_of_a_run_show_all_they_hold(action: IdleAction)
    ensures
        match action {
            IdleAction::LoadRole(id) => action@ == IdleActionView::LoadRole(id),
            IdleAction::Dream { display_name, character_prompt, reason, topic } => action@ matches
                IdleActionView::Dream {
                display_name: shown_name,
                character_prompt: shown_prompt,
                reason: shown_reason,
                topic: shown_topic,
            } && shown_name == display_name@ && shown_prompt == character_prompt@ && shown_reason
                == reason@ && shown_topic == opt_text(topic),
            IdleAction::Finish(Ok(result)) => action@ == IdleActionView::Finish(Ok(result@)),
            IdleAction::Finish(Err(ToolError::InvalidArguments(why))) => action@
                == IdleActionView::Finish(Err(ToolErrorView::InvalidArguments(why@))),
            IdleAction::Finish(Err(ToolError::Execution(why))) => action@
                == IdleActionView::Finish(Err(ToolErrorView::Execution(why@))),
            IdleAction::RequireApp => action@ is RequireApp,
            IdleAction::ReadCurrentRole => action@ is ReadCurrentRole,
            IdleAction::ReadSystemPrompt => action@ is ReadSystemPrompt,
            IdleAction::TakeModel => action@ is TakeModel,
        },
{
}

} // verus!
