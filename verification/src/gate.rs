//! The cheap local filter that decides whether an utterance is worth a model
//! call.
//!
//! The speaker reports everything it hears: television, half-sentences, "嗯".
//! This filter says only whether an utterance is plausibly for us, and when in
//! doubt it forwards. What the user meant is the model's business.

use crate::text::{
    same, starts_with, trim, trimmed, trimmed_is_idempotent, trimming_keeps_an_opening,
};
use vstd::prelude::*;

verus! {

/// Utterances at least this long are a television or a phone call. Counted in
/// characters.
pub const MAX_CHARS: usize = 60;

/// Below this there is nothing for a model to work with.
pub const MIN_CHARS: usize = 2;

/// What to do with one utterance.
#[derive(Debug, Clone, Copy, PartialEq, Eq)]
pub enum Decision {
    /// Drop it. No model call, no speech, nothing.
    Ignore,
    /// Handled here: say this and stop.
    Reply(&'static str),
    /// Hand it to the model.
    Forward,
}

/// What a [`Decision`] says.
pub enum Verdict {
    Ignore,
    Reply(Seq<char>),
    Forward,
}

impl View for Decision {
    type V = Verdict;

    open spec fn view(&self) -> Verdict {
        match *self {
            Decision::Ignore => Verdict::Ignore,
            Decision::Reply(text) => Verdict::Reply(text@),
            Decision::Forward => Verdict::Forward,
        }
    }
}

/// Whether `c` is a letter or a number in the sense of Unicode.
pub uninterp spec fn alphanumeric(c: char) -> bool;

/// Whether `c` is an ASCII letter or digit, or one of the Han characters from U+4E00
/// to U+9FA5.
pub open spec fn plain_letter(c: char) -> bool {
    ||| '0' <= c <= '9'
    ||| 'A' <= c <= 'Z'
    ||| 'a' <= c <= 'z'
    ||| 0x4e00 <= c as u32 <= 0x9fa5
}

/// `char::is_alphanumeric`: whether `c` is a letter or a number in the sense of
/// Unicode, a fact about `c` alone. The letters and digits of ASCII are, and so are
/// Han characters; of other characters nothing more is said.
#[verifier::external_body]
fn is_alphanumeric(c: char) -> (r: bool)
    ensures
        r == alphanumeric(c),
        plain_letter(c) ==> r,
{
    c.is_alphanumeric()
}

/// The phrase that turns the agent on again. It must keep working while the
/// agent is off: it is the only way back.
pub open spec fn enables(text: Seq<char>) -> bool {
    "嘻嘻"@.is_prefix_of(text)
}

/// The phrase that turns the agent off.
pub open spec fn disables(text: Seq<char>) -> bool {
    "不嘻嘻"@.is_prefix_of(text)
}

/// One-character utterances that are real commands.
pub open spec fn short_command(text: Seq<char>) -> bool {
    text == "停"@ || text == "放"@
}

/// Acknowledgements, fillers and bare wake words, matched whole: `好的` alone is
/// noise, `好的，放首周杰伦` is a request.
pub open spec fn filler(text: Seq<char>) -> bool {
    ||| text == "嗯"@
    ||| text == "啊"@
    ||| text == "哦"@
    ||| text == "呃"@
    ||| text == "噢"@
    ||| text == "唉"@
    ||| text == "喂"@
    ||| text == "哈"@
    ||| text == "嗯嗯"@
    ||| text == "哦哦"@
    ||| text == "好"@
    ||| text == "好的"@
    ||| text == "好吧"@
    ||| text == "行"@
    ||| text == "行吧"@
    ||| text == "是"@
    ||| text == "是的"@
    ||| text == "不是"@
    ||| text == "对"@
    ||| text == "对的"@
    ||| text == "不"@
    ||| text == "不用"@
    ||| text == "没事"@
    ||| text == "没有"@
    ||| text == "小爱"@
    ||| text == "小爱同学"@
    ||| text == "小爱小爱"@
    ||| text == "你好"@
    ||| text == "在吗"@
    ||| text == "谢谢"@
    ||| text == "再见"@
    ||| text == "拜拜"@
}

/// Whether `text` is a filler word and nothing else.
fn is_filler(text: &str) -> (r: bool)
    ensures
        r == filler(text@),
{
    same(text, "嗯") || same(text, "啊") || same(text, "哦") || same(text, "呃") || same(
        text,
        "噢",
    ) || same(text, "唉") || same(text, "喂") || same(text, "哈") || same(text, "嗯嗯") || same(
        text,
        "哦哦",
    ) || same(text, "好") || same(text, "好的") || same(text, "好吧") || same(text, "行") || same(
        text,
        "行吧",
    ) || same(text, "是") || same(text, "是的") || same(text, "不是") || same(text, "对") || same(
        text,
        "对的",
    ) || same(text, "不") || same(text, "不用") || same(text, "没事") || same(text, "没有") || same(
        text,
        "小爱",
    ) || same(text, "小爱同学") || same(text, "小爱小爱") || same(text, "你好") || same(
        text,
        "在吗",
    ) || same(text, "谢谢") || same(text, "再见") || same(text, "拜拜")
}

/// Whether `text` holds a letter or a number.
pub open spec fn has_words(text: Seq<char>) -> bool {
    exists|i: int| 0 <= i < text.len() && alphanumeric(#[trigger] text[i])
}

/// Whether `text` holds a letter or a digit of ASCII, or a Han character.
pub open spec fn has_plain_words(text: Seq<char>) -> bool {
    exists|i: int| 0 <= i < text.len() && plain_letter(#[trigger] text[i])
}

/// Whether `text` holds a letter or a number.
fn any_words(text: &str) -> (r: bool)
    ensures
        r == has_words(text@),
        has_plain_words(text@) ==> r,
{
    let n: usize = text.unicode_len();
    let mut i: usize = 0;
    while i < n
        invariant
            n == text@.len(),
            i <= n,
            forall|j: int|
                0 <= j < i ==> !alphanumeric(#[trigger] text@[j]) && !plain_letter(text@[j]),
        decreases n - i,
    {
        if is_alphanumeric(text.get_char(i)) {
            assert(alphanumeric(text@[i as int]));
            return true;
        }
        i += 1;
    }
    false
}

/// Why `text` is not worth a model call, or `None` if it might be.
pub open spec fn noise(text: Seq<char>) -> Option<Seq<char>> {
    if short_command(text) {
        None
    } else if text.len() < MIN_CHARS {
        Some("too short"@)
    } else if text.len() >= MAX_CHARS {
        Some("too long to be speech aimed at a speaker"@)
    } else if !has_words(text) {
        Some("no words in it"@)
    } else if filler(text) {
        Some("filler"@)
    } else {
        None
    }
}

/// Whether `text` is ordinary speech: neither too short nor too long, with words in it
/// that are Chinese or written in ASCII, and no filler.
pub open spec fn ordinary_speech(text: Seq<char>) -> bool {
    MIN_CHARS <= text.len() < MAX_CHARS && has_plain_words(text) && !filler(text)
}

/// Why `text` is not worth a model call, or `None` if it might be. Ordinary speech
/// always might be.
pub fn noise_reason(text: &str) -> (r: Option<&'static str>)
    ensures
        r is Some <==> noise(text@) is Some,
        r matches Some(reason) ==> noise(text@) == Some(reason@),
        ordinary_speech(text@) ==> r is None,
{
    if same(text, "停") || same(text, "放") {
        return None;
    }
    let chars: usize = text.unicode_len();
    if chars < MIN_CHARS {
        return Some("too short");
    }
    if chars >= MAX_CHARS {
        return Some("too long to be speech aimed at a speaker");
    }
    if !any_words(text) {
        return Some("no words in it");
    }
    if is_filler(text) {
        return Some("filler");
    }
    None
}

/// Whether the agent listens after hearing `text`.
pub open spec fn enabled_after(enabled: bool, text: Seq<char>) -> bool {
    let said = trimmed(text);
    if disables(said) {
        false
    } else {
        enabled || enables(said)
    }
}

/// What happens to `text`.
pub open spec fn verdict(enabled: bool, text: Seq<char>) -> Verdict {
    let said = trimmed(text);
    if disables(said) {
        Verdict::Reply("奶龙，关闭！"@)
    } else if enables(said) {
        Verdict::Reply("奶龙，启动！"@)
    } else if !enabled || noise(said) is Some {
        Verdict::Ignore
    } else {
        Verdict::Forward
    }
}

/// The filter's state: whether the agent is currently listening.
#[derive(Debug)]
pub struct Gate {
    enabled: bool,
}

impl View for Gate {
    type V = bool;

    closed spec fn view(&self) -> bool {
        self.enabled
    }
}

impl Default for Gate {
    fn default() -> (r: Self)
        ensures
            r@,
    {
        Gate::new()
    }
}

impl Gate {
    /// A gate that starts listening.
    pub fn new() -> (r: Self)
        ensures
            r@,
    {
        Self { enabled: true }
    }

    /// Whether the agent is listening.
    pub fn is_enabled(&self) -> (r: bool)
        ensures
            r == self@,
    {
        self.enabled
    }

    /// Decide what happens to `text`, updating the enabled flag if it is a
    /// toggle. The toggles are obeyed in both states, and the disabling one is
    /// looked for first. Ordinary speech is forwarded.
    pub fn decide(&mut self, text: &str) -> (r: Decision)
        ensures
            r@ == verdict(old(self)@, text@),
            final(self)@ == enabled_after(old(self)@, text@),
            old(self)@ && !disables(trimmed(text@)) && !enables(trimmed(text@))
                && ordinary_speech(trimmed(text@)) ==> r is Forward,
    {
        let text = trim(text);
        if starts_with(text, "不嘻嘻") {
            self.enabled = false;
            return Decision::Reply("奶龙，关闭！");
        }
        if starts_with(text, "嘻嘻") {
            self.enabled = true;
            return Decision::Reply("奶龙，启动！");
        }
        if !self.enabled {
            return Decision::Ignore;
        }
        match noise_reason(text) {
            Some(_) => Decision::Ignore,
            None => Decision::Forward,
        }
    }
}

/// The agent's state after hearing every one of `texts`.
pub open spec fn enabled_through(enabled: bool, texts: Seq<Seq<char>>) -> bool
    decreases texts.len(),
{
    if texts.len() == 0 {
        enabled
    } else {
        enabled_after(enabled_through(enabled, texts.drop_last()), texts.last())
    }
}

/// Off means off: once disabled, however much is said, nothing reaches the model
/// until somebody says the enabling phrase.
pub proof fn off_until_the_enable_phrase(texts: Seq<Seq<char>>)
    requires
        forall|i: int| 0 <= i < texts.len() ==> !enables(trimmed(#[trigger] texts[i])),
    ensures
        !enabled_through(false, texts),
        forall|i: int|
            0 <= i < texts.len() ==> !(verdict(
                enabled_through(false, texts.take(i)),
                #[trigger] texts[i],
            ) is Forward),
    decreases texts.len(),
{
    if texts.len() > 0 {
        let before = texts.drop_last();
        off_until_the_enable_phrase(before);
        assert forall|i: int| 0 <= i < texts.len() implies !(verdict(
            enabled_through(false, texts.take(i)),
            #[trigger] texts[i],
        ) is Forward) by {
            if i < before.len() {
                assert(before.take(i) =~= texts.take(i));
                assert(before[i] == texts[i]);
            } else {
                assert(texts.take(i) =~= before);
            }
        }
    }
}

/// The disabling phrase is never taken for the enabling one, in either state,
/// and the enabling phrase always brings the agent back.
pub proof fn the_toggles_win(enabled: bool, text: Seq<char>)
    ensures
        disables(trimmed(text)) ==> !enabled_after(enabled, text) && verdict(enabled, text)
            == Verdict::Reply("奶龙，关闭！"@),
        enables(trimmed(text)) ==> enabled_after(enabled, text) && verdict(enabled, text)
            == Verdict::Reply("奶龙，启动！"@),
        !disables(trimmed(text)) && !enables(trimmed(text)) ==> enabled_after(enabled, text)
            == enabled,
{
    reveal_strlit("嘻嘻");
    reveal_strlit("不嘻嘻");
    let said = trimmed(text);
    if disables(said) && enables(said) {
        assert(said[0] == "不嘻嘻"@[0]);
        assert(said[0] == "嘻嘻"@[0]);
    }
}

/// What is passed on: while the assistant is on, anything that is neither of the two phrases
/// and is either one of the two one-word commands or at least two and under sixty
/// characters with a word in it that is more than filler. Nothing else is, and nothing is
/// while it is off.
pub proof fn what_is_passed_on(enabled: bool, text: Seq<char>)
    ensures
        verdict(enabled, text) is Forward <==> {
            let said = trimmed(text);
            &&& enabled
            &&& !enables(said)
            &&& !disables(said)
            &&& said == "停"@ || said == "放"@ || (2 <= said.len() < 60 && has_words(said)
                && !filler(said))
        },
        verdict(enabled, text) is Reply <==> enables(trimmed(text)) || disables(trimmed(text)),
{
    reveal_strlit("停");
    reveal_strlit("放");
}

/// Each kind of noise is told from the others: by length first, then by having no word in
/// it, then by being filler.
pub proof fn noise_is_told_apart(text: Seq<char>)
    requires
        text != "停"@,
        text != "放"@,
    ensures
        text.len() < 2 ==> noise(text) == Some("too short"@),
        text.len() >= 60 ==> noise(text) == Some("too long to be speech aimed at a speaker"@),
        2 <= text.len() < 60 && !has_words(text) ==> noise(text) == Some("no words in it"@),
        2 <= text.len() < 60 && has_words(text) && filler(text) ==> noise(text) == Some("filler"@),
        2 <= text.len() < 60 && has_words(text) && !filler(text) ==> noise(text) is None,
{
}

/// White space around what was said makes no difference.
pub proof fn white_space_around_speech_means_nothing(enabled: bool, text: Seq<char>)
    ensures
        verdict(enabled, trimmed(text)) == verdict(enabled, text),
        enabled_after(enabled, trimmed(text)) == enabled_after(enabled, text),
{
    trimmed_is_idempotent(text);
}

/// The phrases that switch the assistant do so whatever follows them.
pub proof fn the_phrases_switch_whatever_follows(enabled: bool, rest: Seq<char>)
    ensures
        enabled_after(enabled, "嘻嘻"@ + rest),
        !enabled_after(enabled, "不嘻嘻"@ + rest),
        verdict(enabled, "嘻嘻"@ + rest) == Verdict::Reply("奶龙，启动！"@),
        verdict(enabled, "不嘻嘻"@ + rest) == Verdict::Reply("奶龙，关闭！"@),
{
    reveal_strlit("嘻嘻");
    reveal_strlit("不嘻嘻");
    trimming_keeps_an_opening("嘻嘻"@, rest);
    trimming_keeps_an_opening("不嘻嘻"@, rest);
    let on = trimmed("嘻嘻"@ + rest);
    if "不嘻嘻"@.is_prefix_of(on) {
        assert(on[0] == "不嘻嘻"@[0]);
        assert(on[0] == "嘻嘻"@[0]);
    }
}

/// The characters that filler is made of.
pub open spec fn filler_char(c: char) -> bool {
    ||| c == '嗯' || c == '啊' || c == '哦' || c == '呃' || c == '噢' || c == '唉' || c == '喂'
    ||| c == '哈' || c == '好' || c == '的' || c == '吧' || c == '行' || c == '是' || c == '不'
    ||| c == '对' || c == '用' || c == '没' || c == '事' || c == '有' || c == '小' || c == '爱'
    ||| c == '同' || c == '学' || c == '你' || c == '在' || c == '吗' || c == '谢' || c == '再'
    ||| c == '见' || c == '拜'
}

/// Filler is at most four characters of a few set ones: whatever is longer, or says
/// anything else, is never mistaken for it.
pub proof fn a_request_is_never_filler(text: Seq<char>)
    requires
        text.len() > 4 || exists|i: int| 0 <= i < text.len() && !filler_char(#[trigger] text[i]),
    ensures
        !filler(text),
{
    reveal_strlit("嗯");
    reveal_strlit("啊");
    reveal_strlit("哦");
    reveal_strlit("呃");
    reveal_strlit("噢");
    reveal_strlit("唉");
    reveal_strlit("喂");
    reveal_strlit("哈");
    reveal_strlit("嗯嗯");
    reveal_strlit("哦哦");
    reveal_strlit("好");
    reveal_strlit("好的");
    reveal_strlit("好吧");
    reveal_strlit("行");
    reveal_strlit("行吧");
    reveal_strlit("是");
    reveal_strlit("是的");
    reveal_strlit("不是");
    reveal_strlit("对");
    reveal_strlit("对的");
    reveal_strlit("不");
    reveal_strlit("不用");
    reveal_strlit("没事");
    reveal_strlit("没有");
    reveal_strlit("小爱");
    reveal_strlit("小爱同学");
    reveal_strlit("小爱小爱");
    reveal_strlit("你好");
    reveal_strlit("在吗");
    reveal_strlit("谢谢");
    reveal_strlit("再见");
    reveal_strlit("拜拜");
    if filler(text) {
        assert(text.len() <= 4);
        assert(forall|i: int| 0 <= i < text.len() ==> filler_char(#[trigger] text[i]));
    }
}

/// What is said of a decision is what it holds.
pub proof fn a_decision_shows_its_reply(decision: Decision)
    ensures
        match decision {
            Decision::Ignore => decision@ == Verdict::Ignore,
            Decision::Reply(text) => decision@ == Verdict::Reply(text@),
            Decision::Forward => decision@ == Verdict::Forward,
        },
{
}

} // verus!
