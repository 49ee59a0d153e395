//! What is sent to and read from the language-model providers: prompt
//! assembly, chat-history shaping, request bodies, and the extraction of
//! the answer text out of each provider's reply shape. The HTTP calls
//! themselves stay with the caller.

use vstd::prelude::*;

use crate::json::{
    json_get, keys_ordered, lemma_arr_reps, lemma_obj_rep, lemma_sorted_items_intro,
    lemma_sorted_members_intro, reps_of, sorted_json, JsonValue, JsonView,
};
use crate::text::{dec_digits, str_lt, u64_to_dec};

verus! {

/// The model name sent with every chat request to the first provider.
pub const CLAUDE_MODEL: &'static str = "sonnet-latest";

/// The model name sent with every chat request to the second provider.
pub const OPENAI_MODEL: &'static str = "gpt-4o-mini";

/// The token cap sent with every chat request.
pub const MAX_ANSWER_TOKENS: i64 = 4096;

/// The expert-answer template up to the question.
pub const ASK_HEAD: &'static str = "\u{b2f9}\u{c2e0}\u{c740} \u{d574}\u{b2f9} \u{bd84}\u{c57c}\u{c758} \u{c804}\u{bb38}\u{ac00}\u{c785}\u{b2c8}\u{b2e4}. \u{b2e4}\u{c74c} \u{bb38}\u{c11c}\u{b97c} \u{bc14}\u{d0d5}\u{c73c}\u{b85c} \u{c9c8}\u{bb38}\u{c5d0} \u{c804}\u{bb38}\u{c801}\u{c774}\u{ace0} \u{c0c1}\u{c138}\u{d558}\u{ac8c} \u{b2f5}\u{bcc0}\u{d574}\u{c8fc}\u{c138}\u{c694}.\n\n## \u{b2f5}\u{bcc0} \u{ac00}\u{c774}\u{b4dc}\u{b77c}\u{c778}:\n- \u{c804}\u{bb38} \u{c6a9}\u{c5b4}\u{ac00} \u{c788}\u{b2e4}\u{ba74} \u{c27d}\u{ac8c} \u{c124}\u{ba85}\u{d574}\u{c8fc}\u{c138}\u{c694}\n- \u{ad00}\u{b828} \u{bc30}\u{acbd} \u{c9c0}\u{c2dd}\u{b3c4} \u{d568}\u{aed8} \u{c81c}\u{acf5}\u{d574}\u{c8fc}\u{c138}\u{c694}\n- \u{c2e4}\u{c6a9}\u{c801}\u{c778} \u{c608}\u{c2dc}\u{b098} \u{d65c}\u{c6a9} \u{bc29}\u{c548}\u{c774} \u{c788}\u{b2e4}\u{ba74} \u{d3ec}\u{d568}\u{d574}\u{c8fc}\u{c138}\u{c694}\n- \u{b17c}\u{b9ac}\u{c801}\u{c778} \u{ad6c}\u{c870}\u{b85c} \u{b2f5}\u{bcc0}\u{c744} \u{ad6c}\u{c131}\u{d574}\u{c8fc}\u{c138}\u{c694}\n\n## \u{c9c8}\u{bb38}:\n";

/// The expert-answer template between the question and the document.
pub const ASK_MID: &'static str = "\n\n## \u{cc38}\u{ace0} \u{bb38}\u{c11c}:\n";

/// The expert-answer template after the document.
pub const ASK_TAIL: &'static str = "\n\n\u{bc18}\u{b4dc}\u{c2dc} \u{d55c}\u{ae00}\u{b85c} \u{c0c1}\u{c138}\u{d558}\u{ac8c} \u{b2f5}\u{bcc0}\u{d574}\u{c8fc}\u{c138}\u{c694}.";

/// The summary template before the content.
pub const SUMMARIZE_HEAD: &'static str = "\u{b2e4}\u{c74c} \u{b0b4}\u{c6a9}\u{c744} \u{d575}\u{c2ec} \u{d3ec}\u{c778}\u{d2b8} \u{c911}\u{c2ec}\u{c73c}\u{b85c} \u{ac04}\u{acb0}\u{d558}\u{ac8c} \u{c694}\u{c57d}\u{d574}\u{c8fc}\u{c138}\u{c694}. \u{bc18}\u{b4dc}\u{c2dc} \u{d55c}\u{ae00}\u{b85c} \u{c791}\u{c131}\u{d574}\u{c8fc}\u{c138}\u{c694}.\n\n";

/// The translation template up to the target language.
pub const TRANSLATE_HEAD: &'static str = "Translate the following content to ";

/// The single-shot translation template after the language.
pub const TRANSLATE_TAIL: &'static str = ". Only provide the translation, no explanations:\n\n";

/// The chunked translation template between the language and the part
/// number.
pub const TRANSLATE_PART_A: &'static str = ". This is part ";

/// The chunked translation template between the part number and the count.
pub const TRANSLATE_PART_B: &'static str = " of ";

/// The chunked translation template after the count.
pub const TRANSLATE_PART_C: &'static str = " parts. Only provide the translation, maintain consistency with previous parts, no explanations:\n\n";

/// The follow-up template up to the document (it adds the keep-the-context
/// guideline to the expert-answer one).
pub const HISTORY_HEAD: &'static str = "\u{b2f9}\u{c2e0}\u{c740} \u{d574}\u{b2f9} \u{bd84}\u{c57c}\u{c758} \u{c804}\u{bb38}\u{ac00}\u{c785}\u{b2c8}\u{b2e4}. \u{b2e4}\u{c74c} \u{bb38}\u{c11c}\u{b97c} \u{bc14}\u{d0d5}\u{c73c}\u{b85c} \u{c9c8}\u{bb38}\u{c5d0} \u{c804}\u{bb38}\u{c801}\u{c774}\u{ace0} \u{c0c1}\u{c138}\u{d558}\u{ac8c} \u{b2f5}\u{bcc0}\u{d574}\u{c8fc}\u{c138}\u{c694}.\n\n## \u{b2f5}\u{bcc0} \u{ac00}\u{c774}\u{b4dc}\u{b77c}\u{c778}:\n- \u{c804}\u{bb38} \u{c6a9}\u{c5b4}\u{ac00} \u{c788}\u{b2e4}\u{ba74} \u{c27d}\u{ac8c} \u{c124}\u{ba85}\u{d574}\u{c8fc}\u{c138}\u{c694}\n- \u{ad00}\u{b828} \u{bc30}\u{acbd} \u{c9c0}\u{c2dd}\u{b3c4} \u{d568}\u{aed8} \u{c81c}\u{acf5}\u{d574}\u{c8fc}\u{c138}\u{c694}\n- \u{c2e4}\u{c6a9}\u{c801}\u{c778} \u{c608}\u{c2dc}\u{b098} \u{d65c}\u{c6a9} \u{bc29}\u{c548}\u{c774} \u{c788}\u{b2e4}\u{ba74} \u{d3ec}\u{d568}\u{d574}\u{c8fc}\u{c138}\u{c694}\n- \u{b17c}\u{b9ac}\u{c801}\u{c778} \u{ad6c}\u{c870}\u{b85c} \u{b2f5}\u{bcc0}\u{c744} \u{ad6c}\u{c131}\u{d574}\u{c8fc}\u{c138}\u{c694}\n- \u{c774}\u{c804} \u{b300}\u{d654} \u{b9e5}\u{b77d}\u{c744} \u{ace0}\u{b824}\u{d574}\u{c11c} \u{b2f5}\u{bcc0}\u{d574}\u{c8fc}\u{c138}\u{c694}\n\n## \u{cc38}\u{ace0} \u{bb38}\u{c11c}:\n";

/// The acknowledgement the assistant is seeded with in a follow-up chat.
pub const HISTORY_ACK: &'static str = "\u{b124}, \u{bb38}\u{c11c}\u{b97c} \u{c774}\u{d574}\u{d588}\u{c2b5}\u{b2c8}\u{b2e4}. \u{c9c8}\u{bb38}\u{d574}\u{c8fc}\u{c138}\u{c694}.";

/// The user-question label in the combined third-provider prompt.
pub const HISTORY_QUESTION_LABEL: &'static str = "\n\n\u{c0ac}\u{c6a9}\u{c790} \u{c9c8}\u{bb38}: ";

/// The earlier-conversation label in the combined third-provider prompt.
pub const HISTORY_EARLIER_LABEL: &'static str = "\n\n\u{c774}\u{c804} \u{b300}\u{d654}:\n";

/// The user speaker label of a replayed history line.
pub const HISTORY_USER: &'static str = "\u{c0ac}\u{c6a9}\u{c790}";

/// The assistant speaker label of a replayed history line.
pub const HISTORY_AI: &'static str = "AI";

/// The failure reported when a follow-up arrives with no messages.
pub const NO_MESSAGES: &'static str = "No messages provided";

/// One turn of a conversation as the desktop shell hands it over.
pub struct ConversationMessage {
    pub role: String,
    pub content: String,
}

/// One chat message in the first provider's request shape.
pub struct Message {
    pub role: String,
    pub content: String,
}

/// One chat message in the second provider's request shape.
pub struct OpenAiMessage {
    pub role: String,
    pub content: String,
}

/// The expert-answer prompt over a document and a question.
pub fn ask_prompt(content: &str, question: &str) -> (r: String)
    ensures
        r@ == ASK_HEAD@ + question@ + ASK_MID@ + content@ + ASK_TAIL@,
{
    String::from_str(ASK_HEAD).concat(question).concat(ASK_MID).concat(content).concat(ASK_TAIL)
}

/// The summary prompt over a document.
pub fn summarize_prompt(content: &str) -> (r: String)
    ensures
        r@ == SUMMARIZE_HEAD@ + content@,
{
    String::from_str(SUMMARIZE_HEAD).concat(content)
}

/// The single-shot translation prompt.
pub fn translate_prompt(content: &str, target_lang: &str) -> (r: String)
    ensures
        r@ == TRANSLATE_HEAD@ + target_lang@ + TRANSLATE_TAIL@ + content@,
{
    String::from_str(TRANSLATE_HEAD).concat(target_lang).concat(TRANSLATE_TAIL).concat(content)
}

/// The prompt of one part of a chunked translation.
pub fn translate_part_prompt(chunk: &str, target_lang: &str, part: u64, total: u64) -> (r: String)
    ensures
        r@ == TRANSLATE_HEAD@ + target_lang@ + TRANSLATE_PART_A@ + dec_digits(part as int)
            + TRANSLATE_PART_B@ + dec_digits(total as int) + TRANSLATE_PART_C@ + chunk@,
{
    String::from_str(TRANSLATE_HEAD).concat(target_lang).concat(TRANSLATE_PART_A).concat(
        u64_to_dec(part).as_str(),
    ).concat(TRANSLATE_PART_B).concat(u64_to_dec(total).as_str()).concat(TRANSLATE_PART_C).concat(
        chunk,
    )
}

/// The follow-up system prompt over the reference document.
pub fn history_system_prompt(content: &str) -> (r: String)
    ensures
        r@ == HISTORY_HEAD@ + content@ + ASK_TAIL@,
{
    String::from_str(HISTORY_HEAD).concat(content).concat(ASK_TAIL)
}

/// The first provider's chat: the system context as a seeded user turn and
/// acknowledgement, then the conversation as it came.
pub fn claude_history_messages(messages: &Vec<ConversationMessage>, content: &str) -> (r: Vec<
    Message,
>)
    ensures
        r@.len() == messages@.len() + 2,
        r@[0].role@ == "user"@,
        r@[0].content@ == HISTORY_HEAD@ + content@ + ASK_TAIL@,
        r@[1].role@ == "assistant"@,
        r@[1].content@ == HISTORY_ACK@,
        forall|i: int|
            0 <= i < messages@.len() ==> (#[trigger] r@[i + 2]).role@ == messages@[i].role@
                && r@[i + 2].content@ == messages@[i].content@,
{
    let mut out: Vec<Message> = Vec::new();
    out.push(Message { role: String::from_str("user"), content: history_system_prompt(content) });
    out.push(
        Message { role: String::from_str("assistant"), content: String::from_str(HISTORY_ACK) },
    );
    let n = messages.len();
    for i in 0..n
        invariant
            n == messages@.len(),
            out@.len() == i + 2,
            out@[0].role@ == "user"@,
            out@[0].content@ == HISTORY_HEAD@ + content@ + ASK_TAIL@,
            out@[1].role@ == "assistant"@,
            out@[1].content@ == HISTORY_ACK@,
            forall|j: int|
                0 <= j < i ==> (#[trigger] out@[j + 2]).role@ == messages@[j].role@ && out@[j
                    + 2].content@ == messages@[j].content@,
    {
        out.push(
            Message { role: messages[i].role.clone(), content: messages[i].content.clone() },
        );
    }
    out
}

/// The second provider's chat: the system context as a system turn, then
/// the conversation as it came.
pub fn openai_history_messages(messages: &Vec<ConversationMessage>, content: &str) -> (r: Vec<
    OpenAiMessage,
>)
    ensures
        r@.len() == messages@.len() + 1,
        r@[0].role@ == "system"@,
        r@[0].content@ == HISTORY_HEAD@ + content@ + ASK_TAIL@,
        forall|i: int|
            0 <= i < messages@.len() ==> (#[trigger] r@[i + 1]).role@ == messages@[i].role@
                && r@[i + 1].content@ == messages@[i].content@,
{
    let mut out: Vec<OpenAiMessage> = Vec::new();
    out.push(
        OpenAiMessage {
            role: String::from_str("system"),
            content: history_system_prompt(content),
        },
    );
    let n = messages.len();
    for i in 0..n
        invariant
            n == messages@.len(),
            out@.len() == i + 1,
            out@[0].role@ == "system"@,
            out@[0].content@ == HISTORY_HEAD@ + content@ + ASK_TAIL@,
            forall|j: int|
                0 <= j < i ==> (#[trigger] out@[j + 1]).role@ == messages@[j].role@ && out@[j
                    + 1].content@ == messages@[j].content@,
    {
        out.push(
            OpenAiMessage { role: messages[i].role.clone(), content: messages[i].content.clone() },
        );
    }
    out
}

/// One replayed line of the conversation: the speaker label, a colon, the
/// turn's text.
pub open spec fn history_line(role: Seq<char>, content: Seq<char>) -> Seq<char> {
    (if role == "user"@ {
        HISTORY_USER@
    } else {
        HISTORY_AI@
    }) + ": "@ + content
}

/// The replayed conversation, one line per turn.
pub open spec fn history_lines(ms: Seq<(Seq<char>, Seq<char>)>) -> Seq<Seq<char>> {
    Seq::new(ms.len(), |i: int| history_line(ms[i].0, ms[i].1))
}

/// The view of a conversation: each turn's role and text.
pub open spec fn convo_views(ms: Seq<ConversationMessage>) -> Seq<(Seq<char>, Seq<char>)> {
    Seq::new(ms.len(), |i: int| (ms[i].role@, ms[i].content@))
}

/// The question handed to the third provider for a follow-up: with no
/// messages the call fails; one message asks its text; more replay the
/// whole conversation under the system context.
pub fn gemini_history_question(messages: &Vec<ConversationMessage>, content: &str) -> (r: Result<
    String,
    String,
>)
    ensures
        messages@.len() == 0 ==> (r matches Err(e) && e@ == NO_MESSAGES@),
        messages@.len() == 1 ==> (r matches Ok(q) && q@ == messages@[0].content@),
        messages@.len() > 1 ==> (r matches Ok(q) && q@ == HISTORY_HEAD@ + content@ + ASK_TAIL@
            + HISTORY_QUESTION_LABEL@ + messages@[0].content@ + HISTORY_EARLIER_LABEL@
            + crate::text::join_sep(history_lines(convo_views(messages@)), "\n"@)),
{
    if messages.len() == 0 {
        return Err(String::from_str(NO_MESSAGES));
    }
    if messages.len() == 1 {
        return Ok(messages[0].content.clone());
    }
    let first_message = history_system_prompt(content).concat(HISTORY_QUESTION_LABEL).concat(
        messages[0].content.as_str(),
    );
    let mut lines: Vec<String> = Vec::new();
    let n = messages.len();
    for i in 0..n
        invariant
            n == messages@.len(),
            lines@.len() == i,
            forall|j: int|
                0 <= j < i ==> (#[trigger] lines@[j])@ == history_line(
                    messages@[j].role@,
                    messages@[j].content@,
                ),
    {
        let label = if crate::text::str_eq(messages[i].role.as_str(), "user") {
            String::from_str(HISTORY_USER)
        } else {
            String::from_str(HISTORY_AI)
        };
        lines.push(label.concat(": ").concat(messages[i].content.as_str()));
    }
    let joined = crate::text::join_strings(&lines, "\n");
    proof {
        assert(crate::text::str_views(lines@) =~= history_lines(convo_views(messages@)));
    }
    Ok(first_message.concat(HISTORY_EARLIER_LABEL).concat(joined.as_str()))
}

/// The views of a chat message list: each turn's role and text.
pub open spec fn message_views(ms: Seq<Message>) -> Seq<(Seq<char>, Seq<char>)> {
    Seq::new(ms.len(), |i: int| (ms[i].role@, ms[i].content@))
}

/// The views of the second provider's message list.
pub open spec fn openai_message_views(ms: Seq<OpenAiMessage>) -> Seq<(Seq<char>, Seq<char>)> {
    Seq::new(ms.len(), |i: int| (ms[i].role@, ms[i].content@))
}

/// A chat message as a request object: `{"content": .., "role": ..}`.
pub open spec fn chat_message_rep(role: Seq<char>, content: Seq<char>) -> JsonView {
    JsonView::Obj(seq![("content"@, JsonView::Str(content)), ("role"@, JsonView::Str(role))])
}

/// The message objects of a chat, in order.
pub open spec fn chat_messages_rep(ms: Seq<(Seq<char>, Seq<char>)>) -> Seq<JsonView> {
    Seq::new(ms.len(), |i: int| chat_message_rep(ms[i].0, ms[i].1))
}

/// A chat request body: the token cap, the messages, and the model name.
pub open spec fn chat_request_rep(ms: Seq<(Seq<char>, Seq<char>)>, model: Seq<char>) -> JsonView {
    JsonView::Obj(
        seq![
            ("max_tokens"@, JsonView::Int(4096)),
            ("messages"@, JsonView::Arr(chat_messages_rep(ms))),
            ("model"@, JsonView::Str(model)),
        ],
    )
}

/// Build one chat message object.
fn chat_message_value(role: &str, content: &str) -> (v: JsonValue)
    ensures
        v@ == chat_message_rep(role@, content@),
        sorted_json(v@),
{
    let mut entries: Vec<(String, JsonValue)> = Vec::new();
    entries.push((String::from_str("content"), JsonValue::Str(content.to_owned())));
    entries.push((String::from_str("role"), JsonValue::Str(role.to_owned())));
    proof {
        lemma_obj_rep(entries);
    }
    let v = JsonValue::Obj(entries);
    proof {
        reveal_strlit("content");
        reveal_strlit("role");
        let es = match v@ {
            JsonView::Obj(inner) => inner,
            _ => Seq::empty(),
        };
        assert(es =~= seq![
            ("content"@, JsonView::Str(content@)),
            ("role"@, JsonView::Str(role@)),
        ]);
        assert(str_lt("content"@, "role"@));
        assert(keys_ordered(es));
        assert(forall|i: int| 0 <= i < es.len() ==> sorted_json((#[trigger] es[i]).1));
        lemma_sorted_members_intro(es);
        assert(sorted_json(v@));
    }
    v
}

/// Build a chat request body from roles and texts.
fn chat_request_value(pairs: &Vec<(String, String)>, model: &str) -> (v: JsonValue)
    ensures
        v@ == chat_request_rep(
            Seq::new(pairs@.len(), |i: int| (pairs@[i].0@, pairs@[i].1@)),
            model@,
        ),
        sorted_json(v@),
{
    let ghost pv: Seq<(Seq<char>, Seq<char>)> = Seq::new(
        pairs@.len(),
        |i: int| (pairs@[i].0@, pairs@[i].1@),
    );
    let mut items: Vec<JsonValue> = Vec::new();
    let n = pairs.len();
    for i in 0..n
        invariant
            pv == Seq::new(pairs@.len(), |j: int| (pairs@[j].0@, pairs@[j].1@)),
            n == pairs@.len(),
            pv.len() == n,
            items@.len() == i,
            forall|j: int|
                0 <= j < i ==> crate::json::json_rep(#[trigger] items@[j]) == chat_message_rep(
                    pv[j].0,
                    pv[j].1,
                ) && sorted_json(crate::json::json_rep(items@[j])),
    {
        let m = chat_message_value(pairs[i].0.as_str(), pairs[i].1.as_str());
        items.push(m);
    }
    proof {
        lemma_arr_reps(items);
        assert(reps_of(items@) =~= chat_messages_rep(pv));
        assert(forall|j: int|
            0 <= j < reps_of(items@).len() ==> sorted_json(#[trigger] reps_of(items@)[j]));
        lemma_sorted_items_intro(reps_of(items@));
    }
    let messages_arr = JsonValue::Arr(items);
    let mut entries: Vec<(String, JsonValue)> = Vec::new();
    entries.push((String::from_str("max_tokens"), JsonValue::Int(MAX_ANSWER_TOKENS)));
    entries.push((String::from_str("messages"), messages_arr));
    entries.push((String::from_str("model"), JsonValue::Str(model.to_owned())));
    proof {
        lemma_obj_rep(entries);
    }
    let v = JsonValue::Obj(entries);
    proof {
        reveal_strlit("max_tokens");
        reveal_strlit("messages");
        reveal_strlit("model");
        let es = match v@ {
            JsonView::Obj(inner) => inner,
            _ => Seq::empty(),
        };
        assert(es =~= seq![
            ("max_tokens"@, JsonView::Int(4096)),
            ("messages"@, JsonView::Arr(chat_messages_rep(pv))),
            ("model"@, JsonView::Str(model@)),
        ]);
        assert(str_lt("max_tokens"@.skip(1), "messages"@.skip(1)));
        assert(str_lt("max_tokens"@, "messages"@));
        assert(str_lt("max_tokens"@.skip(1), "model"@.skip(1)));
        assert(str_lt("max_tokens"@, "model"@));
        assert(str_lt("messages"@.skip(1), "model"@.skip(1)));
        assert(str_lt("messages"@, "model"@));
        assert(keys_ordered(es));
        assert(forall|i: int| 0 <= i < es.len() ==> sorted_json((#[trigger] es[i]).1));
        lemma_sorted_members_intro(es);
        assert(sorted_json(v@));
    }
    v
}

/// Build the first provider's request body.
pub fn claude_request(messages: &Vec<Message>) -> (v: JsonValue)
    ensures
        v@ == chat_request_rep(message_views(messages@), CLAUDE_MODEL@),
        sorted_json(v@),
{
    let mut pairs: Vec<(String, String)> = Vec::new();
    let n = messages.len();
    for i in 0..n
        invariant
            n == messages@.len(),
            pairs@.len() == i,
            forall|j: int|
                0 <= j < i ==> (#[trigger] pairs@[j]).0@ == messages@[j].role@ && pairs@[j].1@
                    == messages@[j].content@,
    {
        pairs.push((messages[i].role.clone(), messages[i].content.clone()));
    }
    let v = chat_request_value(&pairs, CLAUDE_MODEL);
    proof {
        assert(Seq::new(pairs@.len(), |i: int| (pairs@[i].0@, pairs@[i].1@)) =~= message_views(
            messages@,
        ));
    }
    v
}

/// Build the second provider's request body.
pub fn openai_request(messages: &Vec<OpenAiMessage>) -> (v: JsonValue)
    ensures
        v@ == chat_request_rep(openai_message_views(messages@), OPENAI_MODEL@),
        sorted_json(v@),
{
    let mut pairs: Vec<(String, String)> = Vec::new();
    let n = messages.len();
    for i in 0..n
        invariant
            n == messages@.len(),
            pairs@.len() == i,
            forall|j: int|
                0 <= j < i ==> (#[trigger] pairs@[j]).0@ == messages@[j].role@ && pairs@[j].1@
                    == messages@[j].content@,
    {
        pairs.push((messages[i].role.clone(), messages[i].content.clone()));
    }
    let v = chat_request_value(&pairs, OPENAI_MODEL);
    proof {
        assert(Seq::new(pairs@.len(), |i: int| (pairs@[i].0@, pairs@[i].1@))
            =~= openai_message_views(messages@));
    }
    v
}

/// The third provider's request body: one user turn holding the prompt.
pub open spec fn gemini_request_rep(prompt: Seq<char>) -> JsonView {
    JsonView::Obj(
        seq![
            (
                "contents"@,
                JsonView::Arr(
                    seq![
                        JsonView::Obj(
                            seq![
                                (
                                    "parts"@,
                                    JsonView::Arr(
                                        seq![
                                            JsonView::Obj(seq![("text"@, JsonView::Str(prompt))]),
                                        ],
                                    ),
                                ),
                                ("role"@, JsonView::Str("user"@)),
                            ],
                        ),
                    ],
                ),
            ),
        ],
    )
}

/// Build the third provider's request body.
pub fn gemini_request(prompt: &str) -> (v: JsonValue)
    ensures
        v@ == gemini_request_rep(prompt@),
        sorted_json(v@),
{
    let mut text_entries: Vec<(String, JsonValue)> = Vec::new();
    text_entries.push((String::from_str("text"), JsonValue::Str(prompt.to_owned())));
    proof {
        lemma_obj_rep(text_entries);
    }
    let text_obj = JsonValue::Obj(text_entries);
    let mut part_items: Vec<JsonValue> = Vec::new();
    part_items.push(text_obj);
    proof {
        lemma_arr_reps(part_items);
    }
    let parts_arr = JsonValue::Arr(part_items);
    let mut turn_entries: Vec<(String, JsonValue)> = Vec::new();
    turn_entries.push((String::from_str("parts"), parts_arr));
    turn_entries.push((String::from_str("role"), JsonValue::Str(String::from_str("user"))));
    proof {
        lemma_obj_rep(turn_entries);
    }
    let turn = JsonValue::Obj(turn_entries);
    let mut content_items: Vec<JsonValue> = Vec::new();
    content_items.push(turn);
    proof {
        lemma_arr_reps(content_items);
    }
    let contents_arr = JsonValue::Arr(content_items);
    let mut entries: Vec<(String, JsonValue)> = Vec::new();
    entries.push((String::from_str("contents"), contents_arr));
    proof {
        lemma_obj_rep(entries);
    }
    let v = JsonValue::Obj(entries);
    proof {
        reveal_strlit("text");
        reveal_strlit("parts");
        reveal_strlit("role");
        reveal_strlit("contents");
        let text_es = match text_obj@ {
            JsonView::Obj(inner) => inner,
            _ => Seq::empty(),
        };
        assert(text_es =~= seq![("text"@, JsonView::Str(prompt@))]);
        assert(keys_ordered(text_es));
        assert(forall|i: int| 0 <= i < text_es.len() ==> sorted_json((#[trigger] text_es[i]).1));
        lemma_sorted_members_intro(text_es);
        assert(sorted_json(text_obj@));
        let parts_is = match parts_arr@ {
            JsonView::Arr(inner) => inner,
            _ => Seq::empty(),
        };
        assert(parts_is =~= seq![text_obj@]);
        assert(forall|i: int| 0 <= i < parts_is.len() ==> sorted_json(#[trigger] parts_is[i]));
        lemma_sorted_items_intro(parts_is);
        assert(sorted_json(parts_arr@));
        let turn_es = match turn@ {
            JsonView::Obj(inner) => inner,
            _ => Seq::empty(),
        };
        assert(turn_es =~= seq![
            ("parts"@, parts_arr@),
            ("role"@, JsonView::Str("user"@)),
        ]);
        assert(str_lt("parts"@, "role"@));
        assert(keys_ordered(turn_es));
        assert(forall|i: int| 0 <= i < turn_es.len() ==> sorted_json((#[trigger] turn_es[i]).1));
        lemma_sorted_members_intro(turn_es);
        assert(sorted_json(turn@));
        let contents_is = match contents_arr@ {
            JsonView::Arr(inner) => inner,
            _ => Seq::empty(),
        };
        assert(contents_is =~= seq![turn@]);
        assert(forall|i: int|
            0 <= i < contents_is.len() ==> sorted_json(#[trigger] contents_is[i]));
        lemma_sorted_items_intro(contents_is);
        assert(sorted_json(contents_arr@));
        let es = match v@ {
            JsonView::Obj(inner) => inner,
            _ => Seq::empty(),
        };
        assert(es =~= seq![("contents"@, contents_arr@)]);
        assert(keys_ordered(es));
        assert(forall|i: int| 0 <= i < es.len() ==> sorted_json((#[trigger] es[i]).1));
        lemma_sorted_members_intro(es);
        assert(sorted_json(v@));
    }
    v
}

/// The answer text in the first provider's reply: the first content
/// block's text.
pub open spec fn claude_text_of(reply: JsonView) -> Option<Seq<char>> {
    match json_get(reply, "content"@) {
        Option::Some(JsonView::Arr(blocks)) => if blocks.len() > 0 {
            match json_get(blocks[0], "text"@) {
                Option::Some(JsonView::Str(t)) => Option::Some(t),
                _ => Option::None,
            }
        } else {
            Option::None
        },
        _ => Option::None,
    }
}

/// Read the answer text out of the first provider's reply.
pub fn claude_reply_text(reply: &JsonValue) -> (r: Option<String>)
    ensures
        match claude_text_of(reply@) {
            Option::Some(t) => r matches Some(s) && s@ == t,
            Option::None => r is None,
        },
{
    if let Some(content) = reply.get("content") {
        if let JsonValue::Arr(blocks) = content {
            if blocks.len() > 0 {
                proof {
                    lemma_arr_reps(*blocks);
                }
                if let Some(JsonValue::Str(t)) = blocks[0].get("text") {
                    return Some(t.clone());
                }
            }
        }
    }
    None
}

/// The answer text in the second provider's reply: the first choice's
/// message content.
pub open spec fn openai_text_of(reply: JsonView) -> Option<Seq<char>> {
    match json_get(reply, "choices"@) {
        Option::Some(JsonView::Arr(choices)) => if choices.len() > 0 {
            match json_get(choices[0], "message"@) {
                Option::Some(m) => match json_get(m, "content"@) {
                    Option::Some(JsonView::Str(t)) => Option::Some(t),
                    _ => Option::None,
                },
                _ => Option::None,
            }
        } else {
            Option::None
        },
        _ => Option::None,
    }
}

/// Read the answer text out of the second provider's reply.
pub fn openai_reply_text(reply: &JsonValue) -> (r: Option<String>)
    ensures
        match openai_text_of(reply@) {
            Option::Some(t) => r matches Some(s) && s@ == t,
            Option::None => r is None,
        },
{
    if let Some(choices) = reply.get("choices") {
        if let JsonValue::Arr(items) = choices {
            if items.len() > 0 {
                proof {
                    lemma_arr_reps(*items);
                }
                if let Some(m) = items[0].get("message") {
                    if let Some(JsonValue::Str(t)) = m.get("content") {
                        return Some(t.clone());
                    }
                }
            }
        }
    }
    None
}

/// The failure message in the third provider's reply, when it carries one.
pub open spec fn gemini_error_of(reply: JsonView) -> Option<Seq<char>> {
    match json_get(reply, "error"@) {
        Option::Some(e) => match json_get(e, "message"@) {
            Option::Some(JsonView::Str(m)) => Option::Some(m),
            _ => Option::None,
        },
        _ => Option::None,
    }
}

/// Read the failure message out of the third provider's reply.
pub fn gemini_error(reply: &JsonValue) -> (r: Option<String>)
    ensures
        match gemini_error_of(reply@) {
            Option::Some(m) => r matches Some(s) && s@ == m,
            Option::None => r is None,
        },
{
    if let Some(e) = reply.get("error") {
        if let Some(JsonValue::Str(m)) = e.get("message") {
            return Some(m.clone());
        }
    }
    None
}

/// The answer text in the third provider's reply: the first candidate's
/// first part, when it is not empty.
pub open spec fn gemini_text_of(reply: JsonView) -> Option<Seq<char>> {
    match json_get(reply, "candidates"@) {
        Option::Some(JsonView::Arr(cands)) => if cands.len() > 0 {
            match json_get(cands[0], "content"@) {
                Option::Some(c) => match json_get(c, "parts"@) {
                    Option::Some(JsonView::Arr(parts)) => if parts.len() > 0 {
                        match json_get(parts[0], "text"@) {
                            Option::Some(JsonView::Str(t)) => if t.len() > 0 {
                                Option::Some(t)
                            } else {
                                Option::None
                            },
                            _ => Option::None,
                        }
                    } else {
                        Option::None
                    },
                    _ => Option::None,
                },
                _ => Option::None,
            }
        } else {
            Option::None
        },
        _ => Option::None,
    }
}

/// Read the answer text out of the third provider's reply.
pub fn gemini_reply_text(reply: &JsonValue) -> (r: Option<String>)
    ensures
        match gemini_text_of(reply@) {
            Option::Some(t) => r matches Some(s) && s@ == t,
            Option::None => r is None,
        },
{
    if let Some(cands) = reply.get("candidates") {
        if let JsonValue::Arr(items) = cands {
            if items.len() > 0 {
                proof {
                    lemma_arr_reps(*items);
                }
                if let Some(c) = items[0].get("content") {
                    if let Some(JsonValue::Arr(parts)) = c.get("parts") {
                        if parts.len() > 0 {
                            proof {
                                lemma_arr_reps(*parts);
                            }
                            if let Some(JsonValue::Str(t)) = parts[0].get("text") {
                                if t.unicode_len() > 0 {
                                    return Some(t.clone());
                                }
                            }
                        }
                    }
                }
            }
        }
    }
    None
}

} // verus!
