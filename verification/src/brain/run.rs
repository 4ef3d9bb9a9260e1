//! The control loop's decisions: what to ask the model, which tools to run, what
//! to say.
//!
//! The loop over utterances goes by [`Agent::run`], and only an exhausted source ends
//! it. One utterance is one [`Turn`]. Whoever drives it asks the model when the turn
//! is [`Step::Ask`], runs a tool when it is [`Step::Call`], and hands back what
//! came of it. Failure is routine, not fatal: malformed arguments and tool errors
//! become tool results that the model recovers from.

use crate::brain::client::{
    call_views, copy_calls, message_views, CallView, ChatMessage, ChatResponse, MessageView,
    ResponseView, ToolCall,
};
use crate::brain::error::{labelled, outcome, BrainErr, BrainErrView};
use crate::brain::registry::{a_schema_names_its_tool, function_schema, make_schema};
use crate::brain::traits::{Utterance, UtteranceView};
use crate::decimal::{dec, u64_text};
use crate::json::{json_parse, json_text, json_view, json_views, opt_view, Json, JsonView};
use crate::text::{
    contains, join, joined, joining_keeps_every_part, trim, trimmed, trimmed_is_idempotent,
    trimming_cuts_only_white_space, trimming_ignores_white_space_around, views,
    what_is_put_in_is_contained, white_space,
};
use vstd::prelude::*;

verus! {

/// The standing instructions.
pub const DEFAULT_SYSTEM_PROMPT: &'static str = "你是一台智能音箱的助手。用户通过语音和你交流，你的回答会被朗读出来。\n\n规则：\n- 用简体中文回答，语气自然口语化，除非用户要求，否则不要超过三句话。\n- 回答里不要出现 Markdown、表情符号、编号列表或任何朗读时会很奇怪的排版。\n- 需要播放音乐、控制音量等操作时，调用相应的工具，不要假装已经做了。\n- 聊天、辩论这类请求直接回答即可，不需要调用任何工具。\n- 工具返回错误时，把原因用一句话告诉用户，或者换个参数重试一次。";

/// Knobs on the loop's behaviour.
#[derive(Debug, Clone)]
pub struct AgentConfig {
    pub system_prompt: String,
    /// Rounds of tool execution one utterance may take before the turn is
    /// abandoned.
    pub max_tool_iterations: usize,
    /// Past messages carried into the next turn, trimmed from the oldest end.
    pub max_history_messages: usize,
}

impl Default for AgentConfig {
    fn default() -> (r: Self)
        ensures
            r.system_prompt@ == DEFAULT_SYSTEM_PROMPT@,
            r.max_tool_iterations == 5,
            r.max_history_messages == 12,
    {
        AgentConfig {
            system_prompt: DEFAULT_SYSTEM_PROMPT.to_owned(),
            max_tool_iterations: 5,
            max_history_messages: 12,
        }
    }
}

/// Where a turn stands.
pub enum Phase {
    /// The model is to be asked with the messages so far.
    Asking,
    /// The calls from `next` on are still to be run.
    Calling { calls: Seq<CallView>, next: int },
    /// The turn is over and this is to be said.
    Replied(Seq<char>),
    /// The turn is over without an answer.
    Failed(BrainErrView),
}

/// What a [`Turn`] is.
pub struct TurnView {
    /// What the user said.
    pub user: Seq<char>,
    /// The conversation as the model is to see it.
    pub messages: Seq<MessageView>,
    /// How many rounds of tools have been run.
    pub round: nat,
    /// How many may be run.
    pub limit: nat,
    pub phase: Phase,
}

/// Something that happened in a turn.
pub enum TurnEvent {
    /// The model answered.
    Response(ResponseView),
    /// The model could not be asked.
    ModelFailed(BrainErrView),
    /// A tool call came to this result.
    ToolResult(Seq<char>),
}

impl TurnView {
    /// Whether `event` can happen next.
    pub open spec fn expects(self, event: TurnEvent) -> bool {
        match event {
            TurnEvent::Response(_) => self.phase is Asking,
            TurnEvent::ModelFailed(_) => self.phase is Asking,
            TurnEvent::ToolResult(_) => self.phase is Calling,
        }
    }

    /// The turn after `event`.
    pub open spec fn after(self, event: TurnEvent) -> TurnView {
        match event {
            TurnEvent::ModelFailed(e) => TurnView { phase: Phase::Failed(e), ..self },
            TurnEvent::Response(response) => if response.tool_calls.len() == 0 {
                TurnView { phase: Phase::Replied(response.text()), ..self }
            } else if self.round == self.limit {
                TurnView { phase: Phase::Failed(BrainErrView::Backend(gave_up(self.limit))), ..self }
            } else {
                TurnView {
                    messages: self.messages.push(
                        MessageView::Assistant {
                            content: response.content,
                            tool_calls: response.tool_calls,
                        },
                    ),
                    phase: Phase::Calling { calls: response.tool_calls, next: 0 },
                    ..self
                }
            },
            TurnEvent::ToolResult(result) => match self.phase {
                Phase::Calling { calls, next } => {
                    let messages = self.messages.push(
                        MessageView::Tool { tool_call_id: calls[next].id, content: result },
                    );
                    if next + 1 < calls.len() {
                        TurnView {
                            messages,
                            phase: Phase::Calling { calls, next: next + 1 },
                            ..self
                        }
                    } else {
                        TurnView { messages, round: self.round + 1, phase: Phase::Asking, ..self }
                    }
                },
                _ => self,
            },
        }
    }

    /// The turn is consistent: there is a call to run while calls are being run,
    /// and the rounds stay within their limit.
    pub open spec fn wf(self) -> bool {
        &&& self.round <= self.limit
        &&& self.phase matches Phase::Calling { calls, next } ==> 0 <= next < calls.len()
            && self.round < self.limit
    }

    /// Whether the turn is over.
    pub open spec fn over(self) -> bool {
        self.phase is Replied || self.phase is Failed
    }
}

/// Why a turn is abandoned whose model never stops calling tools.
pub open spec fn gave_up(limit: nat) -> Seq<char> {
    "model still requesting tools after "@ + dec(limit)
        + " rounds; giving up on this turn"@
}

/// What the driver of a turn has to do next.
#[derive(Debug)]
pub enum Step<'a> {
    /// Ask the model with [`Turn::messages`].
    Ask,
    /// Run this call.
    Call(&'a ToolCall),
    /// Nothing: the turn is over, and this is to be said.
    Reply(&'a str),
    /// Nothing: the turn is over without an answer.
    Fail(&'a BrainErr),
}

#[derive(Debug)]
enum Stage {
    Asking,
    Calling { calls: Vec<ToolCall>, next: usize },
    Replied(String),
    Failed(BrainErr),
}

/// One utterance being answered.
#[derive(Debug)]
pub struct Turn {
    user: String,
    messages: Vec<ChatMessage>,
    round: usize,
    limit: usize,
    stage: Stage,
}

impl View for Turn {
    type V = TurnView;

    closed spec fn view(&self) -> TurnView {
        TurnView {
            user: self.user@,
            messages: message_views(self.messages@),
            round: self.round as nat,
            limit: self.limit as nat,
            phase: match self.stage {
                Stage::Asking => Phase::Asking,
                Stage::Calling { calls, next } => Phase::Calling {
                    calls: call_views(calls@),
                    next: next as int,
                },
                Stage::Replied(text) => Phase::Replied(text@),
                Stage::Failed(e) => Phase::Failed(e@),
            },
        }
    }
}

impl Turn {
    /// The conversation as the model is to see it.
    pub fn messages(&self) -> (r: &Vec<ChatMessage>)
        ensures
            message_views(r@) == self@.messages,
    {
        &self.messages
    }

    /// What to do next.
    pub fn step(&self) -> (r: Step<'_>)
        requires
            self@.wf(),
        ensures
            match r {
                Step::Ask => self@.phase is Asking,
                Step::Call(call) => self@.phase matches Phase::Calling { calls, next }
                    && calls[next] == call@,
                Step::Reply(text) => self@.phase == Phase::Replied(text@),
                Step::Fail(e) => self@.phase == Phase::Failed(e@),
            },
    {
        match &self.stage {
            Stage::Asking => Step::Ask,
            Stage::Calling { calls, next } => {
                assert(call_views(calls@)[*next as int] == calls@[*next as int]@);
                Step::Call(&calls[*next])
            },
            Stage::Replied(text) => Step::Reply(text.as_str()),
            Stage::Failed(e) => Step::Fail(e),
        }
    }

    /// The model answered.
    pub fn on_response(&mut self, response: ChatResponse)
        requires
            old(self)@.wf(),
            old(self)@.expects(TurnEvent::Response(response@)),
        ensures
            final(self)@ == old(self)@.after(TurnEvent::Response(response@)),
            final(self)@.wf(),
    {
        if !response.wants_tools() {
            let text = response.text().to_owned();
            self.stage = Stage::Replied(text);
            return;
        }
        if self.round == self.limit {
            let mut message = "model still requesting tools after ".to_owned();
            message.append(u64_text(self.limit as u64).as_str());
            message.append(" rounds; giving up on this turn");
            self.stage = Stage::Failed(BrainErr::Backend(message));
            return;
        }
        let ghost before = self@.messages;
        let calls = copy_calls(&response.tool_calls);
        self.messages.push(
            ChatMessage::Assistant {
                content: response.content,
                tool_calls: response.tool_calls,
            },
        );
        self.stage = Stage::Calling { calls, next: 0 };
        assert(self@.messages =~= before.push(
            MessageView::Assistant {
                content: response@.content,
                tool_calls: response@.tool_calls,
            },
        ));
        assert(self@ == old(self)@.after(TurnEvent::Response(response@)));
    }

    /// The model could not be asked.
    pub fn on_model_failed(&mut self, e: BrainErr)
        requires
            old(self)@.wf(),
            old(self)@.expects(TurnEvent::ModelFailed(e@)),
        ensures
            final(self)@ == old(self)@.after(TurnEvent::ModelFailed(e@)),
            final(self)@.wf(),
    {
        self.stage = Stage::Failed(e);
    }

    /// The call that [`Turn::step`] asked for came to `result`.
    pub fn on_tool_result(&mut self, result: &str)
        requires
            old(self)@.wf(),
            old(self)@.expects(TurnEvent::ToolResult(result@)),
        ensures
            final(self)@ == old(self)@.after(TurnEvent::ToolResult(result@)),
            final(self)@.wf(),
    {
        let ghost before = self@.messages;
        let mut finished: bool = false;
        match &mut self.stage {
            Stage::Calling { calls, next } => {
                assert(call_views(calls@)[*next as int] == calls@[*next as int]@);
                self.messages.push(ChatMessage::tool(calls[*next].id.as_str(), result));
                if calls.len() - *next > 1 {
                    *next = *next + 1;
                } else {
                    finished = true;
                }
            },
            _ => {},
        }
        if finished {
            self.round = self.round + 1;
            self.stage = Stage::Asking;
        }
        proof {
            let v = old(self)@;
            assert(self@.messages =~= v.after(TurnEvent::ToolResult(result@)).messages);
        }
    }
}

/// The messages of a history: whole exchanges, each a user's words and a reply in
/// prose.
pub open spec fn whole_exchanges(history: Seq<MessageView>) -> bool {
    &&& history.len() % 2 == 0
    &&& forall|i: int|
        0 <= i < history.len() ==> (if i % 2 == 0 {
            #[trigger] history[i] is User
        } else {
            history[i] matches MessageView::Assistant { content: Some(_), tool_calls }
                && tool_calls.len() == 0
        })
}

/// The most messages a history may hold: the configured number, rounded down to
/// whole exchanges.
pub open spec fn history_limit(max: nat) -> nat {
    (max - max % 2) as nat
}

/// A history after one more exchange: the newest messages within the limit.
pub open spec fn remembered(
    history: Seq<MessageView>,
    max: nat,
    user: Seq<char>,
    reply: Seq<char>,
) -> Seq<MessageView> {
    let longer = history.push(MessageView::User(user)).push(
        MessageView::Assistant { content: Some(reply), tool_calls: Seq::empty() },
    );
    let keep = history_limit(max);
    if max == 0 {
        history
    } else if longer.len() > keep {
        longer.skip(longer.len() - keep)
    } else {
        longer
    }
}

/// The assistant's memory: its configuration and the conversation so far.
///
/// Only whole exchanges are kept. Messages carrying tool calls are not: they are
/// valid only next to their results.
#[derive(Debug)]
pub struct Agent {
    config: AgentConfig,
    history: Vec<ChatMessage>,
}

impl Agent {
    /// What it remembers.
    pub closed spec fn history(&self) -> Seq<MessageView> {
        message_views(self.history@)
    }

    /// Its configuration.
    pub closed spec fn configured(&self) -> AgentConfig {
        self.config
    }

    /// The history is whole exchanges, and not too many.
    pub open spec fn wf(&self) -> bool {
        &&& whole_exchanges(self.history())
        &&& self.history().len() <= history_limit(self.configured().max_history_messages as nat)
    }

    /// An assistant that remembers nothing yet.
    pub fn new(config: AgentConfig) -> (r: Self)
        ensures
            r.wf(),
            r.configured() == config,
            r.history() == Seq::<MessageView>::empty(),
    {
        let r = Self { config, history: Vec::new() };
        assert(r.history() =~= Seq::<MessageView>::empty());
        r
    }

    /// Its configuration.
    pub fn config(&self) -> (r: &AgentConfig)
        ensures
            *r == self.configured(),
    {
        &self.config
    }

    /// Begin the turn that answers `utterance`: the instructions, what is
    /// remembered, and what was just said.
    pub fn handle(&self, utterance: &Utterance) -> (r: Turn)
        requires
            self.wf(),
        ensures
            r@ == (TurnView {
                user: utterance.text@,
                messages: seq![MessageView::System(self.configured().system_prompt@)]
                    + self.history() + seq![MessageView::User(utterance.text@)],
                round: 0,
                limit: self.configured().max_tool_iterations as nat,
                phase: Phase::Asking,
            }),
            r@.wf(),
    {
        let mut messages: Vec<ChatMessage> = Vec::new();
        messages.push(ChatMessage::system(self.config.system_prompt.as_str()));
        let mut i: usize = 0;
        while i < self.history.len()
            invariant
                i <= self.history@.len(),
                messages@.len() == i + 1,
                messages@[0]@ == MessageView::System(self.config.system_prompt@),
                forall|k: int|
                    0 <= k < i ==> (#[trigger] messages@[k + 1])@ == self.history@[k]@,
            decreases self.history@.len() - i,
        {
            messages.push(self.history[i].copy());
            i += 1;
        }
        messages.push(ChatMessage::user(utterance.text.as_str()));
        let r = Turn {
            user: utterance.text.clone(),
            messages,
            round: 0,
            limit: self.config.max_tool_iterations,
            stage: Stage::Asking,
        };
        proof {
            let want = seq![MessageView::System(self.config.system_prompt@)] + self.history()
                + seq![MessageView::User(utterance.text@)];
            assert forall|k: int| 0 <= k < want.len() implies r@.messages[k] == want[k] by {
                if 1 <= k && k < want.len() - 1 {
                    assert(messages@[(k - 1) + 1]@ == self.history@[k - 1]@);
                }
            }
            assert(r@.messages =~= want);
        }
        r
    }

    /// Close a turn: an answer is remembered and handed back, a failure leaves
    /// the history as it was.
    pub fn finish(&mut self, turn: Turn) -> (r: Result<String, BrainErr>)
        requires
            old(self).wf(),
            turn@.over(),
        ensures
            final(self).wf(),
            final(self).configured() == old(self).configured(),
            match turn@.phase {
                Phase::Replied(text) => {
                    &&& r matches Ok(reply) && reply@ == text
                    &&& final(self).history() == remembered(
                        old(self).history(),
                        old(self).configured().max_history_messages as nat,
                        turn@.user,
                        text,
                    )
                },
                Phase::Failed(e) => {
                    &&& r matches Err(err) && err@ == e
                    &&& final(self).history() == old(self).history()
                },
                _ => false,
            },
    {
        match turn.stage {
            Stage::Replied(text) => {
                self.remember(turn.user.as_str(), text.as_str());
                Ok(text)
            },
            Stage::Failed(e) => Err(e),
            _ => Err(BrainErr::Backend(String::new())),
        }
    }

    /// Append one exchange to the history and trim the oldest.
    pub fn remember(&mut self, user: &str, reply: &str)
        requires
            old(self).wf(),
        ensures
            final(self).wf(),
            final(self).configured() == old(self).configured(),
            final(self).history() == remembered(
                old(self).history(),
                old(self).configured().max_history_messages as nat,
                user@,
                reply@,
            ),
    {
        let max: usize = self.config.max_history_messages;
        if max == 0 {
            return;
        }
        let ghost before = self.history();
        self.history.push(ChatMessage::user(user));
        self.history.push(ChatMessage::assistant(reply));
        let ghost longer = before.push(MessageView::User(user@)).push(
            MessageView::Assistant { content: Some(reply@), tool_calls: Seq::empty() },
        );
        assert(self.history() =~= longer);
        let keep: usize = max - max % 2;
        let ghost mut gone: int = 0;
        let ghost total = longer.len() as int;
        proof {
            assert(longer.len() % 2 == 0);
            exchange_appended(before, user@, reply@);
        }
        while self.history.len() > keep
            invariant
                keep == history_limit(max as nat),
                self.config == old(self).config,
                0 <= gone <= total,
                total == longer.len(),
                self.history() == longer.skip(gone),
                gone > 0 ==> total - gone >= keep,
                gone == 0 || longer.len() > keep,
            decreases self.history@.len(),
        {
            let ghost held = self.history@;
            assert(self.history().len() == held.len());
            self.history.remove(0);
            proof {
                gone = gone + 1;
                assert forall|k: int| 0 <= k < self.history@.len() implies self.history()[k]
                    == longer.skip(gone)[k] by {
                    assert(message_views(held)[k + 1] == longer.skip(gone - 1)[k + 1]);
                }
                assert(self.history() =~= longer.skip(gone));
            }
        }
        proof {
            assert(longer.skip(0) =~= longer);
            if gone > 0 {
                assert(gone == total - keep);
                exchanges_cut(longer, gone);
            } else {
                assert(self.history() == longer);
            }
        }
    }
}

proof fn exchange_appended(history: Seq<MessageView>, user: Seq<char>, reply: Seq<char>)
    requires
        whole_exchanges(history),
    ensures
        whole_exchanges(
            history.push(MessageView::User(user)).push(
                MessageView::Assistant { content: Some(reply), tool_calls: Seq::empty() },
            ),
        ),
{
    let longer = history.push(MessageView::User(user)).push(
        MessageView::Assistant { content: Some(reply), tool_calls: Seq::empty() },
    );
    assert forall|i: int| 0 <= i < longer.len() implies (if i % 2 == 0 {
        #[trigger] longer[i] is User
    } else {
        longer[i] matches MessageView::Assistant { content: Some(_), tool_calls }
            && tool_calls.len() == 0
    }) by {
        if i < history.len() {
            assert(longer[i] == history[i]);
        }
    }
}

proof fn exchanges_cut(history: Seq<MessageView>, n: int)
    requires
        whole_exchanges(history),
        0 <= n <= history.len(),
        n % 2 == 0,
    ensures
        whole_exchanges(history.skip(n)),
{
    let rest = history.skip(n);
    assert forall|i: int| 0 <= i < rest.len() implies (if i % 2 == 0 {
        #[trigger] rest[i] is User
    } else {
        rest[i] matches MessageView::Assistant { content: Some(_), tool_calls }
            && tool_calls.len() == 0
    }) by {
        assert(rest[i] == history[i + n]);
        assert((i + n) % 2 == i % 2);
    }
}

/// Whether a reply is worth saying: one of white space only means that a tool did
/// the work, and saying it would make a speaker click.
pub fn worth_saying(reply: &str) -> (r: bool)
    ensures
        r == (trimmed(reply@).len() > 0),
{
    let text = trim(reply);
    text.unicode_len() > 0
}

/// What is said after a turn that came to this, if anything: an answer worth saying.
/// A turn that failed is passed over in silence.
pub open spec fn spoken(turn: Result<Seq<char>, BrainErrView>) -> Option<Seq<char>> {
    match turn {
        Ok(text) => if trimmed(text).len() > 0 {
            Some(text)
        } else {
            None
        },
        Err(_) => None,
    }
}

/// What is said after a turn, if anything.
pub fn to_say(turn: &Result<String, BrainErr>) -> (r: Option<&str>)
    ensures
        opt_view(r) == spoken(outcome(*turn)),
{
    match turn {
        Ok(text) => if worth_saying(text.as_str()) {
            Some(text.as_str())
        } else {
            None
        },
        Err(_) => None,
    }
}

/// Something that happened in the loop over utterances.
#[derive(Debug)]
pub enum RunEvent {
    /// The source was asked: an utterance, or none when it is exhausted.
    Heard(Option<Utterance>),
    /// The utterance was handled, which came to this.
    Handled(Result<String, BrainErr>),
    /// The speaker was told to say the answer, which came to this.
    Said(Result<(), BrainErr>),
}

/// What a [`RunEvent`] says.
pub enum RunEventView {
    Heard(Option<UtteranceView>),
    Handled(Result<Seq<char>, BrainErrView>),
    Said(Result<(), BrainErrView>),
}

impl View for RunEvent {
    type V = RunEventView;

    open spec fn view(&self) -> RunEventView {
        match *self {
            RunEvent::Heard(Some(utterance)) => RunEventView::Heard(Some(utterance@)),
            RunEvent::Heard(None) => RunEventView::Heard(None),
            RunEvent::Handled(turn) => RunEventView::Handled(outcome(turn)),
            RunEvent::Said(Ok(_)) => RunEventView::Said(Ok(())),
            RunEvent::Said(Err(e)) => RunEventView::Said(Err(e@)),
        }
    }
}

/// What the driver of the loop over utterances has to do next.
#[derive(Debug, Clone, PartialEq, Eq)]
pub enum RunStep {
    /// Ask the source for the next utterance.
    Listen,
    /// Handle this utterance.
    Handle(Utterance),
    /// Have the speaker say this.
    Say(String),
    /// Nothing: the source is exhausted.
    Stop,
}

/// What a [`RunStep`] says.
pub enum RunStepView {
    Listen,
    Handle(UtteranceView),
    Say(Seq<char>),
    Stop,
}

impl View for RunStep {
    type V = RunStepView;

    open spec fn view(&self) -> RunStepView {
        match *self {
            RunStep::Listen => RunStepView::Listen,
            RunStep::Handle(utterance) => RunStepView::Handle(utterance@),
            RunStep::Say(text) => RunStepView::Say(text@),
            RunStep::Stop => RunStepView::Stop,
        }
    }
}

impl RunEventView {
    /// What comes next. Neither a turn that failed nor words that could not be said
    /// are the end of the conversation.
    pub open spec fn next(self) -> RunStepView {
        match self {
            RunEventView::Heard(Some(utterance)) => RunStepView::Handle(utterance),
            RunEventView::Heard(None) => RunStepView::Stop,
            RunEventView::Handled(turn) => match spoken(turn) {
                Some(text) => RunStepView::Say(text),
                None => RunStepView::Listen,
            },
            RunEventView::Said(_) => RunStepView::Listen,
        }
    }
}

impl RunStepView {
    /// Whether `event` is what doing this can come to.
    pub open spec fn comes_to(self, event: RunEventView) -> bool {
        match self {
            RunStepView::Listen => event is Heard,
            RunStepView::Handle(_) => event is Handled,
            RunStepView::Say(_) => event is Said,
            RunStepView::Stop => false,
        }
    }
}

impl Agent {
    /// Consume utterances until the source is exhausted: what to do after `event`. The
    /// first thing to do is [`RunStep::Listen`].
    pub fn run(event: RunEvent) -> (r: RunStep)
        ensures
            r@ == event@.next(),
    {
        match event {
            RunEvent::Heard(Some(utterance)) => RunStep::Handle(utterance),
            RunEvent::Heard(None) => RunStep::Stop,
            RunEvent::Handled(turn) => match to_say(&turn) {
                Some(text) => RunStep::Say(text.to_owned()),
                None => RunStep::Listen,
            },
            RunEvent::Said(_) => RunStep::Listen,
        }
    }
}

/// What parsed arguments mean: an object is the arguments, `null` is none, and
/// anything else is explained to the model.
pub open spec fn arguments_meaning(parsed: Result<JsonView, Seq<char>>) -> Result<
    Option<JsonView>,
    Seq<char>,
> {
    match parsed {
        Err(e) => Err(
            "tool arguments were not valid JSON ("@ + e
                + "); re-send them as a JSON object"@,
        ),
        Ok(JsonView::Object(members)) => Ok(Some(JsonView::Object(members))),
        Ok(JsonView::Null) => Ok(None),
        Ok(other) => Err(
            "tool arguments must be a JSON object, got "@ + json_text(other)
                + "; re-send them as a JSON object"@,
        ),
    }
}

/// What the model's `arguments` string means. Nothing but white space is no
/// arguments: what a model emits for a tool without parameters.
pub open spec fn arguments_of(arguments: Seq<char>) -> Result<Option<JsonView>, Seq<char>> {
    if trimmed(arguments).len() == 0 {
        Ok(None)
    } else {
        arguments_meaning(json_parse(trimmed(arguments)))
    }
}

/// What read arguments, or an explanation, say.
pub open spec fn arguments_view(r: Result<Option<Json>, String>) -> Result<
    Option<JsonView>,
    Seq<char>,
> {
    match r {
        Ok(Some(doc)) => Ok(Some(doc@)),
        Ok(None) => Ok(None),
        Err(message) => Err(message@),
    }
}

/// What a parse of a JSON text says.
pub open spec fn parsed_view(r: Result<Json, String>) -> Result<JsonView, Seq<char>> {
    match r {
        Ok(doc) => Ok(doc@),
        Err(message) => Err(message@),
    }
}

/// What parsed arguments mean.
pub fn read_arguments(parsed: Result<Json, String>) -> (r: Result<Option<Json>, String>)
    ensures
        arguments_view(r) == arguments_meaning(parsed_view(parsed)),
{
    match parsed {
        Err(e) => {
            let mut message = "tool arguments were not valid JSON (".to_owned();
            message.append(e.as_str());
            message.append("); re-send them as a JSON object");
            Err(message)
        },
        Ok(Json::Object(members)) => Ok(Some(Json::Object(members))),
        Ok(Json::Null) => Ok(None),
        Ok(other) => {
            let mut message = "tool arguments must be a JSON object, got ".to_owned();
            message.append(other.render().as_str());
            message.append("; re-send them as a JSON object");
            Err(message)
        },
    }
}

/// Turn the model's `arguments` string into an object, or say why it cannot be.
pub fn parse_arguments(arguments: &str) -> (r: Result<Option<Json>, String>)
    ensures
        arguments_view(r) == arguments_of(arguments@),
{
    let text = trim(arguments);
    if text.unicode_len() == 0 {
        return Ok(None);
    }
    read_arguments(Json::parse(text))
}

/// One block of a tool's result.
#[derive(Debug, Clone)]
pub enum Block {
    Text(String),
    /// An image, a resource: nothing a speaker can say.
    Other,
}

/// What a tool server answered.
#[derive(Debug, Clone)]
pub struct CallToolResult {
    pub content: Vec<Block>,
    pub is_error: Option<bool>,
}

/// The texts among `blocks`, in order.
pub open spec fn texts(blocks: Seq<Block>) -> Seq<Seq<char>>
    decreases blocks.len(),
{
    if blocks.len() == 0 {
        Seq::empty()
    } else {
        match blocks.last() {
            Block::Text(text) => texts(blocks.drop_last()).push(text@),
            Block::Other => texts(blocks.drop_last()),
        }
    }
}

/// A tool's answer as the model reads it: its lines of text, marked when the tool
/// says that it failed.
pub open spec fn rendered(blocks: Seq<Block>, is_error: bool) -> Seq<char> {
    let text = joined(texts(blocks), "\n"@);
    if is_error {
        "error: "@ + text
    } else {
        text
    }
}

/// The text of a tool result. An error result is prefixed, so that the model
/// treats a failure differently from an ordinary answer.
pub fn render_result(result: &CallToolResult) -> (r: String)
    ensures
        r@ == rendered(result.content@, result.is_error == Some(true)),
{
    let blocks = &result.content;
    let mut lines: Vec<String> = Vec::new();
    let mut i: usize = 0;
    assert(views(lines@) =~= Seq::<Seq<char>>::empty());
    while i < blocks.len()
        invariant
            i <= blocks@.len(),
            views(lines@) == texts(blocks@.take(i as int)),
        decreases blocks@.len() - i,
    {
        assert(blocks@.take(i + 1).drop_last() =~= blocks@.take(i as int));
        match &blocks[i] {
            Block::Text(text) => {
                let ghost before = views(lines@);
                lines.push(text.clone());
                assert(views(lines@) =~= before.push(text@));
            },
            Block::Other => {},
        }
        i += 1;
    }
    assert(blocks@.take(blocks@.len() as int) =~= blocks@);
    let text = join(&lines, "\n");
    match result.is_error {
        Some(true) => labelled("error: ", text.as_str()),
        _ => text,
    }
}

/// What running one call takes: an answer known already, because the arguments
/// make no sense, or a request to the tool server.
#[derive(Debug)]
pub enum ToolRun {
    Answer(String),
    Request { name: String, arguments: Option<Json> },
}

/// What running `call` takes. Never an error: whatever is wrong is information
/// for the model.
pub fn run_tool_call(call: &ToolCall) -> (r: ToolRun)
    ensures
        match r {
            ToolRun::Answer(text) => arguments_of(call.arguments@) matches Err(message) && text@
                == "error: "@ + message,
            ToolRun::Request { name, arguments } => name@ == call.name@ && arguments_of(
                call.arguments@,
            ) == arguments_view(Ok(arguments)),
        },
{
    match parse_arguments(call.arguments.as_str()) {
        Ok(arguments) => ToolRun::Request { name: call.name.clone(), arguments },
        Err(message) => ToolRun::Answer(labelled("error: ", message.as_str())),
    }
}

/// What the tool server's reply, or its failure, comes to for the model.
pub fn tool_answer(reply: Result<CallToolResult, String>) -> (r: String)
    ensures
        match reply {
            Ok(result) => r@ == rendered(result.content@, result.is_error == Some(true)),
            Err(e) => r@ == "error: "@ + e@,
        },
{
    match reply {
        Ok(result) => render_result(&result),
        Err(e) => labelled("error: ", e.as_str()),
    }
}

/// A tool as its server lists it.
#[derive(Debug)]
pub struct ToolInfo {
    pub name: String,
    pub description: Option<String>,
    pub input_schema: Json,
}

/// The entry of the `tools` array that describes `tool`.
pub open spec fn info_schema(tool: ToolInfo) -> JsonView {
    function_schema(
        tool.name@,
        match tool.description {
            Some(text) => JsonView::Str(text@),
            None => JsonView::Null,
        },
        tool.input_schema@,
    )
}

/// The tool list as the `tools` array of a request, in the order it came in.
pub fn tool_schemas(tools: &Vec<ToolInfo>) -> (r: Vec<Json>)
    ensures
        json_views(r@) == tools@.map_values(|t: ToolInfo| info_schema(t)),
{
    let mut out: Vec<Json> = Vec::new();
    let mut i: usize = 0;
    while i < tools.len()
        invariant
            i <= tools@.len(),
            out@.len() == i,
            forall|k: int| 0 <= k < i ==> json_view(#[trigger] out@[k]) == info_schema(tools@[k]),
        decreases tools@.len() - i,
    {
        let tool = &tools[i];
        let description = match &tool.description {
            Some(text) => Json::string(text.as_str()),
            None => Json::Null,
        };
        out.push(make_schema(tool.name.as_str(), description, tool.input_schema.copy()));
        i += 1;
    }
    assert(json_views(out@) =~= tools@.map_values(|t: ToolInfo| info_schema(t)));
    out
}

/// A turn after everything in `events`.
pub open spec fn through(turn: TurnView, events: Seq<TurnEvent>) -> TurnView
    decreases events.len(),
{
    if events.len() == 0 {
        turn
    } else {
        through(turn, events.drop_last()).after(events.last())
    }
}

/// Whether `events` can happen one after the other from `turn` on.
pub open spec fn possible(turn: TurnView, events: Seq<TurnEvent>) -> bool
    decreases events.len(),
{
    events.len() == 0 || (possible(turn, events.drop_last()) && through(
        turn,
        events.drop_last(),
    ).expects(events.last()))
}

/// How often the model was asked.
pub open spec fn times_asked(events: Seq<TurnEvent>) -> nat
    decreases events.len(),
{
    if events.len() == 0 {
        0
    } else {
        times_asked(events.drop_last()) + if events.last() is ToolResult {
            0nat
        } else {
            1nat
        }
    }
}

/// A model that never stops calling tools is stopped: one utterance costs at most
/// one model call more than the configured rounds of tools, and by then the turn
/// is over.
pub proof fn the_iteration_cap_holds(turn: TurnView, events: Seq<TurnEvent>)
    requires
        turn.wf(),
        turn.phase is Asking,
        turn.round == 0,
        possible(turn, events),
    ensures
        times_asked(events) <= turn.limit + 1,
        times_asked(events) == turn.limit + 1 ==> through(turn, events).over(),
        through(turn, events).wf(),
{
    asked_once_per_round(turn, events);
}

proof fn asked_once_per_round(turn: TurnView, events: Seq<TurnEvent>)
    requires
        turn.wf(),
        turn.phase is Asking,
        turn.round == 0,
        possible(turn, events),
    ensures
        ({
            let now = through(turn, events);
            &&& now.wf()
            &&& now.limit == turn.limit
            &&& now.phase is Asking ==> times_asked(events) == now.round
            &&& !(now.phase is Asking) ==> times_asked(events) == now.round + 1
        }),
    decreases events.len(),
{
    if events.len() > 0 {
        asked_once_per_round(turn, events.drop_last());
    }
}

/// What the loop over utterances has to do after `events`.
pub open spec fn due(events: Seq<RunEventView>) -> RunStepView {
    if events.len() == 0 {
        RunStepView::Listen
    } else {
        events.last().next()
    }
}

/// Whether every one of `events` is what the step before it came to.
pub open spec fn orderly(events: Seq<RunEventView>) -> bool
    decreases events.len(),
{
    events.len() == 0 || (orderly(events.drop_last()) && due(events.drop_last()).comes_to(
        events.last(),
    ))
}

/// The utterances that the source gave.
pub open spec fn heard(events: Seq<RunEventView>) -> Seq<UtteranceView>
    decreases events.len(),
{
    if events.len() == 0 {
        Seq::empty()
    } else {
        match events.last() {
            RunEventView::Heard(Some(utterance)) => heard(events.drop_last()).push(utterance),
            _ => heard(events.drop_last()),
        }
    }
}

/// What the turns came to.
pub open spec fn turns(events: Seq<RunEventView>) -> Seq<Result<Seq<char>, BrainErrView>>
    decreases events.len(),
{
    if events.len() == 0 {
        Seq::empty()
    } else {
        match events.last() {
            RunEventView::Handled(turn) => turns(events.drop_last()).push(turn),
            _ => turns(events.drop_last()),
        }
    }
}

/// The answers worth saying among `turns`.
pub open spec fn answers(turns: Seq<Result<Seq<char>, BrainErrView>>) -> Seq<Seq<char>>
    decreases turns.len(),
{
    if turns.len() == 0 {
        Seq::empty()
    } else {
        match spoken(turns.last()) {
            Some(text) => answers(turns.drop_last()).push(text),
            None => answers(turns.drop_last()),
        }
    }
}

/// The utterances that were to be handled.
pub open spec fn to_handle(events: Seq<RunEventView>) -> Seq<UtteranceView>
    decreases events.len(),
{
    if events.len() == 0 {
        Seq::empty()
    } else {
        match due(events) {
            RunStepView::Handle(utterance) => to_handle(events.drop_last()).push(utterance),
            _ => to_handle(events.drop_last()),
        }
    }
}

/// The words that the speaker was to say.
pub open spec fn said(events: Seq<RunEventView>) -> Seq<Seq<char>>
    decreases events.len(),
{
    if events.len() == 0 {
        Seq::empty()
    } else {
        match due(events) {
            RunStepView::Say(text) => said(events.drop_last()).push(text),
            _ => said(events.drop_last()),
        }
    }
}

/// Only an exhausted source ends the conversation. However the turns and the words
/// fared, every utterance heard is handled, in order, and every one but perhaps the
/// last has come to something; what is said is exactly the answers worth saying, in
/// order; and the loop goes on until the source has nothing more.
pub proof fn only_an_exhausted_source_ends_the_conversation(events: Seq<RunEventView>)
    requires
        orderly(events),
    ensures
        due(events) is Stop <==> events.len() > 0 && events.last() == RunEventView::Heard(None),
        to_handle(events) == heard(events),
        said(events) == answers(turns(events)),
        turns(events).len() == heard(events).len() - if due(events) is Handle {
            1int
        } else {
            0int
        },
    decreases events.len(),
{
    if events.len() > 0 {
        let before = events.drop_last();
        only_an_exhausted_source_ends_the_conversation(before);
        if let RunEventView::Handled(turn) = events.last() {
            assert(turns(events).drop_last() =~= turns(before));
        }
    }
}

/// A whole conversation: the source gives `utterances` and then nothing, the turns
/// come to `outcomes`, and words that are said come to what `spoke` has at that place.
pub open spec fn conversation(
    utterances: Seq<UtteranceView>,
    outcomes: Seq<Result<Seq<char>, BrainErrView>>,
    spoke: Seq<Result<(), BrainErrView>>,
) -> Seq<RunEventView> {
    exchanges(utterances, outcomes, spoke).push(RunEventView::Heard(None))
}

/// A conversation whose source may have more to give.
pub open spec fn exchanges(
    utterances: Seq<UtteranceView>,
    outcomes: Seq<Result<Seq<char>, BrainErrView>>,
    spoke: Seq<Result<(), BrainErrView>>,
) -> Seq<RunEventView>
    decreases utterances.len(),
{
    if utterances.len() == 0 {
        Seq::empty()
    } else {
        let turn = exchanges(utterances.drop_last(), outcomes.drop_last(), spoke.drop_last()).push(
            RunEventView::Heard(Some(utterances.last())),
        ).push(RunEventView::Handled(outcomes.last()));
        if spoken(outcomes.last()) is Some {
            turn.push(RunEventView::Said(spoke.last()))
        } else {
            turn
        }
    }
}

proof fn exchanges_are_orderly(
    utterances: Seq<UtteranceView>,
    outcomes: Seq<Result<Seq<char>, BrainErrView>>,
    spoke: Seq<Result<(), BrainErrView>>,
)
    requires
        outcomes.len() == utterances.len(),
        spoke.len() == utterances.len(),
    ensures
        ({
            let events = exchanges(utterances, outcomes, spoke);
            &&& orderly(events)
            &&& due(events) is Listen
            &&& heard(events) == utterances
            &&& turns(events) == outcomes
        }),
    decreases utterances.len(),
{
    if utterances.len() == 0 {
        assert(heard(Seq::<RunEventView>::empty()) =~= utterances);
        assert(turns(Seq::<RunEventView>::empty()) =~= outcomes);
    } else {
        let before = exchanges(utterances.drop_last(), outcomes.drop_last(), spoke.drop_last());
        exchanges_are_orderly(utterances.drop_last(), outcomes.drop_last(), spoke.drop_last());
        let a = before.push(RunEventView::Heard(Some(utterances.last())));
        let b = a.push(RunEventView::Handled(outcomes.last()));
        let c = b.push(RunEventView::Said(spoke.last()));
        assert(a.drop_last() =~= before);
        assert(b.drop_last() =~= a);
        assert(c.drop_last() =~= b);
        assert(utterances.drop_last().push(utterances.last()) =~= utterances);
        assert(outcomes.drop_last().push(outcomes.last()) =~= outcomes);
        assert(heard(a) == utterances);
        assert(turns(a) == turns(before));
        assert(orderly(a));
        assert(heard(b) == heard(a));
        assert(turns(b) == turns(a).push(outcomes.last()));
        assert(orderly(b));
        assert(heard(c) == heard(b));
        assert(turns(c) == turns(b));
    }
}

/// The loop runs to its end: whatever the turns and the words come to, a source that
/// gives `utterances` and then nothing has every one of them handled, in order. What
/// is said is exactly the answers worth saying, in order. Then the loop stops, and not
/// before.
pub proof fn every_utterance_is_handled(
    utterances: Seq<UtteranceView>,
    outcomes: Seq<Result<Seq<char>, BrainErrView>>,
    spoke: Seq<Result<(), BrainErrView>>,
)
    requires
        outcomes.len() == utterances.len(),
        spoke.len() == utterances.len(),
    ensures
        ({
            let events = conversation(utterances, outcomes, spoke);
            &&& orderly(events)
            &&& due(events) is Stop
            &&& to_handle(events) == utterances
            &&& said(events) == answers(outcomes)
            &&& forall|n: int|
                0 <= n < events.len() ==> !(due(#[trigger] events.take(n)) is Stop)
        }),
{
    let before = exchanges(utterances, outcomes, spoke);
    let events = conversation(utterances, outcomes, spoke);
    exchanges_are_orderly(utterances, outcomes, spoke);
    assert(events.drop_last() =~= before);
    only_an_exhausted_source_ends_the_conversation(events);
    assert forall|n: int| 0 <= n < events.len() implies !(due(#[trigger] events.take(n)) is Stop) by {
        nothing_follows_the_end(events, n);
    }
}

proof fn nothing_follows_the_end(events: Seq<RunEventView>, n: int)
    requires
        orderly(events),
        0 <= n < events.len(),
    ensures
        !(due(events.take(n)) is Stop),
    decreases events.len(),
{
    if n == events.len() - 1 {
        assert(events.take(n) =~= events.drop_last());
    } else {
        nothing_follows_the_end(events.drop_last(), n);
        assert(events.drop_last().take(n) =~= events.take(n));
    }
}

/// The ids of `calls`.
pub open spec fn call_ids(calls: Seq<CallView>) -> Seq<Seq<char>> {
    calls.map_values(|c: CallView| c.id)
}

/// The ids of the calls in `messages` that no result has answered yet, or `None`
/// when the conversation is one that an endpoint rejects: a result that answers
/// no open call, or another message while calls are open.
pub open spec fn open_calls(messages: Seq<MessageView>) -> Option<Seq<Seq<char>>>
    decreases messages.len(),
{
    if messages.len() == 0 {
        Some(Seq::empty())
    } else {
        match open_calls(messages.drop_last()) {
            None => None,
            Some(waiting) => match messages.last() {
                MessageView::Tool { tool_call_id, content } => if waiting.len() > 0
                    && waiting[0] == tool_call_id {
                    Some(waiting.skip(1))
                } else {
                    None
                },
                MessageView::Assistant { content, tool_calls } => if waiting.len() == 0 {
                    Some(call_ids(tool_calls))
                } else {
                    None
                },
                _ => if waiting.len() == 0 {
                    Some(Seq::empty())
                } else {
                    None
                },
            },
        }
    }
}

/// What a turn's conversation owes while it is in this phase.
pub open spec fn balanced(turn: TurnView) -> bool {
    match turn.phase {
        Phase::Calling { calls, next } => open_calls(turn.messages) == Some(
            call_ids(calls).skip(next),
        ),
        _ => open_calls(turn.messages) == Some(Seq::<Seq<char>>::empty()),
    }
}

proof fn balance_kept(turn: TurnView, event: TurnEvent)
    requires
        turn.wf(),
        balanced(turn),
        turn.expects(event),
    ensures
        balanced(turn.after(event)),
{
    let now = turn.after(event);
    match event {
        TurnEvent::Response(response) => {
            if response.tool_calls.len() > 0 && turn.round != turn.limit {
                assert(now.messages.drop_last() =~= turn.messages);
                assert(call_ids(response.tool_calls).skip(0) =~= call_ids(response.tool_calls));
            }
        },
        TurnEvent::ToolResult(result) => {
            if let Phase::Calling { calls, next } = turn.phase {
                let waiting = call_ids(calls).skip(next);
                assert(now.messages.drop_last() =~= turn.messages);
                assert(waiting[0] == calls[next].id);
                assert(waiting.skip(1) =~= call_ids(calls).skip(next + 1));
                if next + 1 == calls.len() {
                    assert(waiting.skip(1) =~= Seq::<Seq<char>>::empty());
                }
            }
        },
        _ => {},
    }
}

proof fn history_owes_nothing(history: Seq<MessageView>)
    requires
        forall|i: int|
            0 <= i < history.len() ==> (#[trigger] history[i] matches MessageView::Tool { .. }
                ==> false) && (history[i] matches MessageView::Assistant { content, tool_calls }
                ==> tool_calls.len() == 0),
    ensures
        open_calls(history) == Some(Seq::<Seq<char>>::empty()),
    decreases history.len(),
{
    if history.len() > 0 {
        let before = history.drop_last();
        assert forall|i: int| 0 <= i < before.len() implies (#[trigger] before[i] matches MessageView::Tool { .. }
            ==> false) && (before[i] matches MessageView::Assistant { content, tool_calls }
            ==> tool_calls.len() == 0) by {
            assert(before[i] == history[i]);
        }
        history_owes_nothing(before);
        let last = history[history.len() - 1];
        if let MessageView::Assistant { content, tool_calls } = last {
            assert(call_ids(tool_calls) =~= Seq::<Seq<char>>::empty());
        }
    }
}

/// Whenever the model is asked, every call it ever made in this conversation has
/// been answered by its result, in order: the request is one that the endpoint
/// accepts.
pub proof fn every_request_is_well_formed(
    system: Seq<char>,
    history: Seq<MessageView>,
    turn: TurnView,
    events: Seq<TurnEvent>,
)
    requires
        whole_exchanges(history),
        turn.wf(),
        turn.phase is Asking,
        turn.messages == seq![MessageView::System(system)] + history + seq![
            MessageView::User(turn.user),
        ],
        possible(turn, events),
    ensures
        balanced(through(turn, events)),
        turn.messages.is_prefix_of(through(turn, events).messages),
    decreases events.len(),
{
    if events.len() == 0 {
        let m = turn.messages;
        assert forall|i: int| 0 <= i < m.len() implies (#[trigger] m[i] matches MessageView::Tool { .. }
            ==> false) && (m[i] matches MessageView::Assistant { content, tool_calls }
            ==> tool_calls.len() == 0) by {
            if 1 <= i && i < m.len() - 1 {
                assert(m[i] == history[i - 1]);
            }
        }
        history_owes_nothing(m);
    } else {
        every_request_is_well_formed(system, history, turn, events.drop_last());
        let before = through(turn, events.drop_last());
        turns_stay_consistent(turn, events.drop_last());
        balance_kept(before, events.last());
        let now = before.after(events.last());
        assert(before.messages.is_prefix_of(now.messages));
        assert(turn.messages.is_prefix_of(now.messages));
    }
}

proof fn turns_stay_consistent(turn: TurnView, events: Seq<TurnEvent>)
    requires
        turn.wf(),
        possible(turn, events),
    ensures
        through(turn, events).wf(),
    decreases events.len(),
{
    if events.len() > 0 {
        turns_stay_consistent(turn, events.drop_last());
    }
}

/// The events by which tool results come in, one after the other.
pub open spec fn handed_back(results: Seq<Seq<char>>) -> Seq<TurnEvent> {
    results.map_values(|r: Seq<char>| TurnEvent::ToolResult(r))
}

/// Every call gets its own result. However many calls one reply asked for, handing the
/// results back in order puts one tool message per result behind the conversation, each
/// under the id of its call and with exactly the result as its content. While calls are
/// left the next one is due; after the last the model is asked again, one round on.
pub proof fn every_call_gets_its_own_result(turn: TurnView, results: Seq<Seq<char>>)
    requires
        turn.wf(),
        turn.phase matches Phase::Calling { calls, next } && next == 0 && results.len()
            <= calls.len(),
    ensures
        turn.phase matches Phase::Calling { calls, next } ==> {
            let now = through(turn, handed_back(results));
            &&& possible(turn, handed_back(results))
            &&& now.messages.len() == turn.messages.len() + results.len()
            &&& now.messages.take(turn.messages.len() as int) == turn.messages
            &&& forall|k: int|
                0 <= k < results.len() ==> (#[trigger] now.messages[turn.messages.len() + k])
                    == (MessageView::Tool { tool_call_id: calls[k].id, content: results[k] })
            &&& now.user == turn.user
            &&& now.limit == turn.limit
            &&& results.len() < calls.len() ==> now.round == turn.round && now.phase == (
            Phase::Calling { calls, next: results.len() as int })
            &&& results.len() == calls.len() ==> now.round == turn.round + 1
                && now.phase is Asking
        },
    decreases results.len(),
{
    let events = handed_back(results);
    if let Phase::Calling { calls, next } = turn.phase {
        if results.len() == 0 {
            assert(turn.messages.take(turn.messages.len() as int) =~= turn.messages);
        } else {
            let fewer = results.drop_last();
            every_call_gets_its_own_result(turn, fewer);
            assert(events.drop_last() =~= handed_back(fewer));
            let before = through(turn, handed_back(fewer));
            let now = through(turn, events);
            assert(events.last() == TurnEvent::ToolResult(results.last()));
            assert(now.messages =~= before.messages.push(
                MessageView::Tool {
                    tool_call_id: calls[results.len() - 1].id,
                    content: results.last(),
                },
            ));
            assert(now.messages.take(turn.messages.len() as int) =~= before.messages.take(
                turn.messages.len() as int,
            ));
            assert forall|k: int| 0 <= k < results.len() implies (
            #[trigger] now.messages[turn.messages.len() + k]) == (MessageView::Tool {
                tool_call_id: calls[k].id,
                content: results[k],
            }) by {
                if k < fewer.len() {
                    assert(fewer[k] == results[k]);
                    assert(before.messages[turn.messages.len() + k] == (MessageView::Tool {
                        tool_call_id: calls[k].id,
                        content: fewer[k],
                    }));
                }
            }
        }
    }
}

/// A reply in words ends the turn with those words and adds nothing to the conversation.
/// A reply that asks for tools joins the conversation with its words and all its calls,
/// and exactly those calls are run, from the first. Past the allowed rounds none is run,
/// and the turn fails. A model that fails fails the turn with its own error.
pub proof fn a_reply_is_taken_at_its_word(turn: TurnView, response: ResponseView, e: BrainErrView)
    requires
        turn.wf(),
        turn.phase is Asking,
    ensures
        ({
            let now = turn.after(TurnEvent::Response(response));
            &&& now.user == turn.user
            &&& now.limit == turn.limit
            &&& now.round == turn.round
            &&& response.tool_calls.len() == 0 ==> now.messages == turn.messages && now.phase
                == Phase::Replied(
                match response.content {
                    Some(text) => text,
                    None => Seq::empty(),
                },
            )
            &&& response.tool_calls.len() > 0 && turn.round < turn.limit ==> {
                &&& now.messages.len() == turn.messages.len() + 1
                &&& now.messages.drop_last() == turn.messages
                &&& now.messages.last() matches MessageView::Assistant { content, tool_calls }
                    && content == response.content && tool_calls == response.tool_calls
                &&& now.phase matches Phase::Calling { calls, next } && next == 0 && calls
                    == response.tool_calls
            }
            &&& response.tool_calls.len() > 0 && turn.round == turn.limit ==> now.messages
                == turn.messages && (now.phase matches Phase::Failed(BrainErrView::Backend(why))
                && contains(why, dec(turn.limit)))
        }),
        ({
            let now = turn.after(TurnEvent::ModelFailed(e));
            &&& now.phase == Phase::Failed(e)
            &&& now.messages == turn.messages
            &&& now.user == turn.user
            &&& now.round == turn.round
            &&& now.limit == turn.limit
        }),
{
    what_is_put_in_is_contained(
        "model still requesting tools after "@,
        dec(turn.limit),
        " rounds; giving up on this turn"@,
    );
    let now = turn.after(TurnEvent::Response(response));
    if response.tool_calls.len() > 0 && turn.round < turn.limit {
        assert(now.messages.drop_last() =~= turn.messages);
    }
}

/// What is remembered ends with the newest exchange, word for word, and is otherwise the
/// newest part of what was remembered before, unchanged. No more is kept than the limit
/// allows, an exchange is kept whole or not at all, and nothing is forgotten for which
/// there is room. With no room for an exchange nothing is remembered.
pub proof fn the_newest_exchanges_are_remembered(
    history: Seq<MessageView>,
    max: nat,
    user: Seq<char>,
    reply: Seq<char>,
)
    requires
        whole_exchanges(history),
        history.len() <= max,
    ensures
        ({
            let kept = remembered(history, max, user, reply);
            &&& kept.len() <= max
            &&& whole_exchanges(kept)
            &&& max < 2 ==> kept.len() == 0
            &&& max >= 2 ==> {
                &&& kept.len() >= 2
                &&& kept.last() matches MessageView::Assistant { content, tool_calls } && content
                    == Some(reply) && tool_calls.len() == 0
                &&& kept[kept.len() - 2] == MessageView::User(user)
                &&& kept.take(kept.len() - 2).is_suffix_of(history)
                &&& history.len() + 2 <= max ==> kept.len() == history.len() + 2
                &&& history.len() + 2 > max ==> kept.len() + 1 >= max
            }
        }),
{
    let longer = history.push(MessageView::User(user)).push(
        MessageView::Assistant { content: Some(reply), tool_calls: Seq::empty() },
    );
    let kept = remembered(history, max, user, reply);
    let keep = history_limit(max);
    exchange_appended(history, user, reply);
    if max >= 1 && longer.len() > keep {
        exchanges_cut(longer, longer.len() - keep);
    }
    if max >= 2 {
        let n = kept.len() - 2;
        assert(kept.take(n) =~= history.skip(history.len() - n));
        assert(kept.take(n).is_suffix_of(history));
    }
}

/// A reply that holds anything but white space is said as it is; an empty one, and a
/// failed turn, leave the speaker silent.
pub proof fn a_reply_is_said_as_it_is(text: Seq<char>, e: BrainErrView)
    ensures
        spoken(Ok(text)) == if exists|i: int|
            0 <= i < text.len() && !white_space(#[trigger] text[i]) {
            Some(text)
        } else {
            None
        },
        spoken(Err(e)) is None,
{
    trimming_cuts_only_white_space(text);
}

/// An object of arguments reaches the tool as it is, and `null` means no arguments.
/// Anything else is refused, and the refusal shows the model what was wrong: the
/// parser's own words, or the document that was no object.
pub proof fn arguments_reach_the_tool_as_they_are(doc: JsonView, e: Seq<char>)
    ensures
        doc is Object ==> arguments_meaning(Ok(doc)) == Ok::<Option<JsonView>, Seq<char>>(
            Some(doc),
        ),
        doc is Null ==> arguments_meaning(Ok(doc)) == Ok::<Option<JsonView>, Seq<char>>(None),
        !(doc is Object) && !(doc is Null) ==> (arguments_meaning(Ok(doc)) matches Err(words)
            && contains(words, json_text(doc))),
        arguments_meaning(Err(e)) matches Err(words) && contains(words, e),
{
    what_is_put_in_is_contained(
        "tool arguments were not valid JSON ("@,
        e,
        "); re-send them as a JSON object"@,
    );
    what_is_put_in_is_contained(
        "tool arguments must be a JSON object, got "@,
        json_text(doc),
        "; re-send them as a JSON object"@,
    );
}

/// White space around arguments means nothing, and arguments of white space alone are
/// none.
pub proof fn arguments_are_read_without_white_space_around(arguments: Seq<char>)
    ensures
        (forall|i: int| 0 <= i < arguments.len() ==> white_space(#[trigger] arguments[i]))
            ==> arguments_of(arguments) == Ok::<Option<JsonView>, Seq<char>>(None),
        arguments.len() > 0 && !white_space(arguments[0]) && !white_space(arguments.last())
            ==> arguments_of(arguments) == arguments_meaning(json_parse(arguments)),
        arguments_of(trimmed(arguments)) == arguments_of(arguments),
{
    trimming_cuts_only_white_space(arguments);
    trimmed_is_idempotent(arguments);
    if arguments.len() > 0 && !white_space(arguments[0]) && !white_space(arguments.last()) {
        trimming_ignores_white_space_around(Seq::empty(), arguments, Seq::empty());
    }
}

/// Every line of text in a tool's answer reaches the model, in order; blocks of another
/// kind are passed over and displace nothing.
pub proof fn every_text_of_an_answer_is_kept(blocks: Seq<Block>, more: Seq<Block>, text: String)
    ensures
        texts(blocks + more) == texts(blocks) + texts(more),
        texts(seq![Block::Text(text)]) == seq![text@],
        texts(seq![Block::Other]).len() == 0,
        texts(Seq::empty()).len() == 0,
    decreases more.len(),
{
    reveal_with_fuel(texts, 2);
    assert(seq![Block::Text(text)].drop_last() =~= Seq::empty());
    assert(seq![Block::Other].drop_last() =~= Seq::empty());
    assert(texts(seq![Block::Text(text)]) =~= seq![text@]);
    if more.len() == 0 {
        assert(blocks + more =~= blocks);
        assert(texts(blocks) + texts(more) =~= texts(blocks));
    } else {
        every_text_of_an_answer_is_kept(blocks, more.drop_last(), text);
        assert((blocks + more).drop_last() =~= blocks + more.drop_last());
        assert((blocks + more).last() == more.last());
        assert(texts(blocks + more) =~= texts(blocks) + texts(more));
    }
}

/// What the model is shown of a tool's answer is its text: one text as it is, a further
/// one on a line of its own. A failure shows the same text, marked as an error.
pub proof fn an_answer_is_shown_line_by_line(blocks: Seq<Block>, text: String, is_error: bool)
    ensures
        rendered(seq![Block::Text(text)], false) == text@,
        texts(blocks).len() > 0 ==> rendered(blocks.push(Block::Text(text)), is_error) == rendered(
            blocks,
            is_error,
        ) + seq!['\n'] + text@,
        rendered(blocks.push(Block::Other), is_error) == rendered(blocks, is_error),
        rendered(blocks, true) == "error: "@ + rendered(blocks, false),
        forall|i: int|
            0 <= i < blocks.len() && #[trigger] blocks[i] is Text ==> contains(
                rendered(blocks, false),
                blocks[i]->Text_0@,
            ),
{
    reveal_strlit("\n");
    assert("\n"@ =~= seq!['\n']);
    every_text_of_an_answer_is_kept(blocks, seq![Block::Text(text)], text);
    every_text_of_an_answer_is_kept(blocks, seq![Block::Other], text);
    assert(blocks + seq![Block::Text(text)] =~= blocks.push(Block::Text(text)));
    assert(blocks + seq![Block::Other] =~= blocks.push(Block::Other));
    assert(texts(blocks) + texts(seq![Block::Other]) =~= texts(blocks));
    assert(texts(blocks) + seq![text@] =~= texts(blocks).push(text@));
    joining_keeps_every_part(texts(blocks), text@, "\n"@);
    if texts(blocks).len() > 0 {
        assert(rendered(blocks.push(Block::Text(text)), is_error) =~= rendered(blocks, is_error)
            + seq!['\n'] + text@);
    }
    assert forall|i: int|
        0 <= i < blocks.len() && #[trigger] blocks[i] is Text implies contains(
        rendered(blocks, false),
        blocks[i]->Text_0@,
    ) by {
        let t = blocks[i]->Text_0;
        let head = blocks.take(i);
        let tail = blocks.skip(i + 1);
        every_text_of_an_answer_is_kept(head, seq![Block::Text(t)], t);
        every_text_of_an_answer_is_kept(head + seq![Block::Text(t)], tail, t);
        assert(head + seq![Block::Text(t)] + tail =~= blocks);
        assert(texts(blocks)[texts(head).len() as int] == t@);
    }
}

/// A tool is announced to the model under its own name, with its description where it
/// has one and the parameters it declares.
pub proof fn a_listed_tool_is_announced_as_it_is(tool: ToolInfo)
    ensures
        info_schema(tool).get("function"@) matches Some(function) && {
            &&& function.get("name"@) == Some(JsonView::Str(tool.name@))
            &&& function.get("parameters"@) == Some(tool.input_schema@)
            &&& match tool.description {
                Some(text) => function.get("description"@) == Some(JsonView::Str(text@)),
                None => function.text_of("description"@) is None,
            }
        },
{
    a_schema_names_its_tool(
        tool.name@,
        match tool.description {
            Some(text) => JsonView::Str(text@),
            None => JsonView::Null,
        },
        tool.input_schema@,
    );
}

/// Each event has one answer: an utterance is handled as it was heard, an exhausted
/// source ends the conversation, and after an answer has been given, whether or not the
/// speaker managed to say it, the next utterance is awaited.
pub proof fn each_event_has_its_answer(utterance: UtteranceView, spoke: Result<(), BrainErrView>)
    ensures
        RunEventView::Heard(Some(utterance)).next() == RunStepView::Handle(utterance),
        RunEventView::Heard(None).next() is Stop,
        RunEventView::Said(spoke).next() is Listen,
        forall|turn: Result<Seq<char>, BrainErrView>|
            (#[trigger] RunEventView::Handled(turn).next()) matches RunStepView::Say(text) ==> turn
                == Ok::<Seq<char>, BrainErrView>(text),
{
}

/// What is said of an event and of a step is what each holds.
pub proof fn events_and_steps_show_what_they_hold(event: RunEvent, step: RunStep)
    ensures
        match event {
            RunEvent::Heard(Some(utterance)) => event@ == RunEventView::Heard(Some(utterance@)),
            RunEvent::Heard(None) => event@ == RunEventView::Heard(None),
            RunEvent::Handled(Ok(text)) => event@ == RunEventView::Handled(Ok(text@)),
            RunEvent::Handled(Err(e)) => event@ == RunEventView::Handled(Err(e@)),
            RunEvent::Said(Ok(_)) => event@ == RunEventView::Said(Ok(())),
            RunEvent::Said(Err(e)) => event@ == RunEventView::Said(Err(e@)),
        },
        match step {
            RunStep::Listen => step@ == RunStepView::Listen,
            RunStep::Handle(utterance) => step@ == RunStepView::Handle(utterance@),
            RunStep::Say(text) => step@ == RunStepView::Say(text@),
            RunStep::Stop => step@ == RunStepView::Stop,
        },
{
}

} // verus!
