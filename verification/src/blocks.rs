//! Markdown to block-tree conversion and block-to-Markdown rendering.
//!
//! The write direction turns Markdown lines into content blocks (`## ` and
//! `# ` headings, `---` dividers, `- ` bullets, paragraphs; blank lines are
//! dropped). The read direction renders a fetched block to one Markdown
//! line: a divider becomes `---`, every other block is decorated from its
//! type tag and plain text. The write direction covers a subset of what
//! the read direction understands: numbered items, quotes, code and
//! to-dos are rendered when fetched but never produced.

use vstd::prelude::*;

use crate::json::{
    json_get, json_rep, keys_ordered, lemma_arr_reps, lemma_obj_rep, lemma_sorted_items_intro,
    lemma_sorted_members_intro, obj_lookup, reps_of, sorted_items, sorted_json, sorted_members,
    JsonValue, JsonView,
};
use crate::text::{has_prefix, is_blank, starts_with_str, str_eq, str_lt, trim_str, trimmed};

verus! {

/// The plain text of a rich-text array: each part's `plain_text` member,
/// concatenated.
pub open spec fn plain_concat(parts: Seq<JsonView>) -> Seq<char>
    decreases parts.len(),
{
    if parts.len() == 0 {
        Seq::empty()
    } else {
        (match json_get(parts[0], "plain_text"@) {
            Option::Some(JsonView::Str(t)) => t,
            _ => Seq::empty(),
        }) + plain_concat(parts.skip(1))
    }
}

/// The Markdown line a block type decorates its text with.
pub open spec fn decorated(ty: Seq<char>, tc: JsonView, text: Seq<char>) -> Seq<char> {
    if ty == "heading_1"@ {
        "# "@ + text
    } else if ty == "heading_2"@ {
        "## "@ + text
    } else if ty == "heading_3"@ {
        "### "@ + text
    } else if ty == "bulleted_list_item"@ {
        "- "@ + text
    } else if ty == "numbered_list_item"@ {
        "1. "@ + text
    } else if ty == "quote"@ {
        "> "@ + text
    } else if ty == "code"@ {
        "```\n"@ + text + "\n```"@
    } else if ty == "to_do"@ {
        if json_get(tc, "checked"@) == Option::Some(JsonView::Bool(true)) {
            "- [x] "@ + text
        } else {
            "- [ ] "@ + text
        }
    } else {
        text
    }
}

/// The Markdown line of a fetched block: a divider renders to its rule;
/// any other type names the member whose `rich_text` is concatenated and
/// decorated, and a block with no text renders to nothing.
pub open spec fn block_text_of(block: JsonView) -> Option<Seq<char>> {
    match json_get(block, "type"@) {
        Option::Some(JsonView::Str(ty)) => if ty == "divider"@ {
            Option::Some("---"@)
        } else {
            match json_get(block, ty) {
                Option::Some(tc) => match json_get(tc, "rich_text"@) {
                    Option::Some(JsonView::Arr(parts)) => {
                        let text = plain_concat(parts);
                        if text.len() == 0 {
                            Option::None
                        } else {
                            Option::Some(decorated(ty, tc, text))
                        }
                    },
                    _ => Option::None,
                },
                Option::None => Option::None,
            }
        },
        _ => Option::None,
    }
}

/// Concatenate the `plain_text` members of a rich-text array.
pub fn concat_plain(parts: &Vec<JsonValue>) -> (r: String)
    ensures
        r@ == plain_concat(reps_of(parts@)),
{
    let ghost pv = reps_of(parts@);
    let mut acc = String::new();
    let n = parts.len();
    proof {
        assert(pv.skip(0) =~= pv);
    }
    for i in 0..n
        invariant
            pv == reps_of(parts@),
            n == parts@.len(),
            pv.len() == n,
            plain_concat(pv) == acc@ + plain_concat(pv.skip(i as int)),
    {
        proof {
            assert(pv.skip(i as int)[0] == pv[i as int]);
            assert(pv[i as int] == json_rep(parts@[i as int]));
            assert(pv.skip(i as int).skip(1) =~= pv.skip(i as int + 1));
        }
        match parts[i].get("plain_text") {
            Some(JsonValue::Str(t)) => {
                let ghost piece = t@;
                let ghost acc_old = acc@;
                acc.append(t.as_str());
                proof {
                    assert((acc_old + piece) + plain_concat(pv.skip(i as int + 1)) =~= acc_old + (
                    piece + plain_concat(pv.skip(i as int + 1))));
                }
            },
            _ => {
                proof {
                    assert(Seq::<char>::empty() + plain_concat(pv.skip(i as int + 1))
                        =~= plain_concat(pv.skip(i as int + 1)));
                }
            },
        }
    }
    proof {
        assert(pv.skip(n as int) =~= Seq::<JsonView>::empty());
        assert(acc@ + Seq::<char>::empty() =~= acc@);
    }
    acc
}

/// Render one fetched block to its Markdown line, when it carries text.
pub fn extract_block_text(block: &JsonValue) -> (r: Option<String>)
    ensures
        match block_text_of(block@) {
            Option::Some(t) => r matches Some(s) && s@ == t,
            Option::None => r is None,
        },
{
    let ty = match block.get("type") {
        Some(JsonValue::Str(t)) => t.clone(),
        _ => {
            return None;
        },
    };
    if str_eq(ty.as_str(), "divider") {
        return Some(String::from_str("---"));
    }
    let tc = match block.get(ty.as_str()) {
        Some(c) => c,
        None => {
            return None;
        },
    };
    let parts = match tc.get("rich_text") {
        Some(JsonValue::Arr(parts)) => parts,
        _ => {
            return None;
        },
    };
    let text = concat_plain(parts);
    proof {
        crate::json::lemma_arr_reps(*parts);
    }
    if text.unicode_len() == 0 {
        return None;
    }
    let decorated_line = if str_eq(ty.as_str(), "heading_1") {
        String::from_str("# ").concat(text.as_str())
    } else if str_eq(ty.as_str(), "heading_2") {
        String::from_str("## ").concat(text.as_str())
    } else if str_eq(ty.as_str(), "heading_3") {
        String::from_str("### ").concat(text.as_str())
    } else if str_eq(ty.as_str(), "bulleted_list_item") {
        String::from_str("- ").concat(text.as_str())
    } else if str_eq(ty.as_str(), "numbered_list_item") {
        String::from_str("1. ").concat(text.as_str())
    } else if str_eq(ty.as_str(), "quote") {
        String::from_str("> ").concat(text.as_str())
    } else if str_eq(ty.as_str(), "code") {
        let r = String::from_str("```\n").concat(text.as_str()).concat("\n```");
        proof {
            assert(r@ =~= "```\n"@ + text@ + "\n```"@);
        }
        r
    } else if str_eq(ty.as_str(), "to_do") {
        let checked = match tc.get("checked") {
            Some(JsonValue::Bool(b)) => *b,
            _ => false,
        };
        if checked {
            String::from_str("- [x] ").concat(text.as_str())
        } else {
            String::from_str("- [ ] ").concat(text.as_str())
        }
    } else {
        text
    };
    Some(decorated_line)
}

/// A rich-text array carrying one text item with the given content.
pub open spec fn rich_text_rep(text: Seq<char>) -> JsonView {
    JsonView::Arr(
        seq![
            JsonView::Obj(
                seq![
                    ("text"@, JsonView::Obj(seq![("content"@, JsonView::Str(text))])),
                    ("type"@, JsonView::Str("text"@)),
                ],
            ),
        ],
    )
}

/// The member object holding a block's rich text.
pub open spec fn body_rep(text: Seq<char>) -> JsonView {
    JsonView::Obj(seq![("rich_text"@, rich_text_rep(text))])
}

/// A block whose type tag orders before `object`: `{tag: body, "object":
/// "block", "type": tag}`.
pub open spec fn tag_block(tag: Seq<char>, body: JsonView) -> JsonView {
    JsonView::Obj(
        seq![
            (tag, body),
            ("object"@, JsonView::Str("block"@)),
            ("type"@, JsonView::Str(tag)),
        ],
    )
}

/// A paragraph block, whose tag orders after `object`.
pub open spec fn paragraph_block(text: Seq<char>) -> JsonView {
    JsonView::Obj(
        seq![
            ("object"@, JsonView::Str("block"@)),
            ("paragraph"@, body_rep(text)),
            ("type"@, JsonView::Str("paragraph"@)),
        ],
    )
}

/// The block one trimmed, non-blank Markdown line converts to.
pub open spec fn md_line_block(line: Seq<char>) -> JsonView {
    if has_prefix(line, "## "@) {
        tag_block("heading_2"@, body_rep(line.skip(3)))
    } else if has_prefix(line, "# "@) {
        tag_block("heading_1"@, body_rep(line.skip(2)))
    } else if line == "---"@ {
        tag_block("divider"@, JsonView::Obj(Seq::empty()))
    } else if has_prefix(line, "- "@) {
        tag_block("bulleted_list_item"@, body_rep(line.skip(2)))
    } else {
        paragraph_block(line)
    }
}

/// What the written block comes back as: the far end stores the text sent
/// under `text.content` and returns it as `plain_text` runs under the same
/// type tag.
pub open spec fn echo_block(tag: Seq<char>, text: Seq<char>) -> JsonView {
    JsonView::Obj(
        seq![
            (
                tag,
                JsonView::Obj(
                    seq![
                        (
                            "rich_text"@,
                            JsonView::Arr(
                                seq![
                                    JsonView::Obj(seq![("plain_text"@, JsonView::Str(text))]),
                                ],
                            ),
                        ),
                    ],
                ),
            ),
            ("type"@, JsonView::Str(tag)),
        ],
    )
}

/// The type tag a Markdown line is written as.
pub open spec fn written_tag(line: Seq<char>) -> Seq<char> {
    if has_prefix(line, "## "@) {
        "heading_2"@
    } else if has_prefix(line, "# "@) {
        "heading_1"@
    } else if line == "---"@ {
        "divider"@
    } else if has_prefix(line, "- "@) {
        "bulleted_list_item"@
    } else {
        "paragraph"@
    }
}

/// The text a Markdown line is written with.
pub open spec fn written_text(line: Seq<char>) -> Seq<char> {
    if has_prefix(line, "## "@) {
        line.skip(3)
    } else if has_prefix(line, "# "@) {
        line.skip(2)
    } else if line == "---"@ {
        Seq::empty()
    } else if has_prefix(line, "- "@) {
        line.skip(2)
    } else {
        line
    }
}

proof fn lemma_echo_text(tag: Seq<char>, text: Seq<char>)
    requires
        tag != "type"@,
        tag != "divider"@,
        text.len() > 0,
    ensures
        block_text_of(echo_block(tag, text)) matches Some(r) && r == decorated(
            tag,
            JsonView::Obj(
                seq![
                    (
                        "rich_text"@,
                        JsonView::Arr(seq![JsonView::Obj(seq![("plain_text"@, JsonView::Str(text))])]),
                    ),
                ],
            ),
            text,
        ),
{
    let block = echo_block(tag, text);
    let es = match block {
        JsonView::Obj(inner) => inner,
        _ => Seq::empty(),
    };
    assert(block is Obj);
    assert(es.len() == 2);
    assert(es[0].0 == tag);
    assert(es.skip(1) =~= seq![("type"@, JsonView::Str(tag))]);
    assert(obj_lookup(es, "type"@) == obj_lookup(es.skip(1), "type"@));
    assert(obj_lookup(es.skip(1), "type"@) == Option::Some(JsonView::Str(tag)));
    assert(json_get(block, "type"@) == Option::Some(JsonView::Str(tag)));
    assert(json_get(block, tag) is Some);
    let tc = match json_get(block, tag) {
        Option::Some(x) => x,
        Option::None => JsonView::Null,
    };
    let parts = seq![JsonView::Obj(seq![("plain_text"@, JsonView::Str(text))])];
    assert(json_get(tc, "rich_text"@) == Option::Some(JsonView::Arr(parts)));
    assert(parts.skip(1) =~= Seq::<JsonView>::empty());
    assert(plain_concat(parts.skip(1)) == Seq::<char>::empty());
    assert(plain_concat(parts) =~= text);
}

/// Law: a supported Markdown line — a `## ` or `# ` heading with text, a
/// `- ` bullet with text, a `---` divider, or a plain paragraph — written
/// as a block and echoed back by the far end renders to the same line.
pub proof fn lemma_markdown_round_trip(line: Seq<char>)
    requires
        !crate::text::spec_blank(line),
        has_prefix(line, "## "@) ==> line.len() > 3,
        has_prefix(line, "# "@) ==> line.len() > 2,
        has_prefix(line, "- "@) ==> line.len() > 2,
    ensures
        block_text_of(echo_block(written_tag(line), written_text(line))) == Some(line),
{
    reveal_strlit("## ");
    reveal_strlit("# ");
    reveal_strlit("- ");
    reveal_strlit("---");
    reveal_strlit("heading_1");
    reveal_strlit("heading_2");
    reveal_strlit("heading_3");
    reveal_strlit("bulleted_list_item");
    reveal_strlit("numbered_list_item");
    reveal_strlit("quote");
    reveal_strlit("code");
    reveal_strlit("to_do");
    reveal_strlit("paragraph");
    reveal_strlit("type");
    reveal_strlit("divider");
    reveal_strlit("---");
    let tag = written_tag(line);
    let text = written_text(line);
    if has_prefix(line, "## "@) {
        assert(text.len() > 0);
        assert(tag == "heading_2"@);
        assert("heading_2"@.len() == 9);
        assert("type"@.len() == 4);
        assert("divider"@.len() == 7);
        assert(tag != "type"@);
        assert(tag != "divider"@);
        assert(("heading_2"@)[8] != ("heading_1"@)[8]);
        lemma_echo_text(tag, text);
        assert("## "@ + line.skip(3) =~= line);
    } else if has_prefix(line, "# "@) {
        assert(text.len() > 0);
        assert(tag == "heading_1"@);
        assert("heading_1"@.len() == 9);
        assert("type"@.len() == 4);
        assert("divider"@.len() == 7);
        assert(tag != "type"@);
        assert(tag != "divider"@);
        lemma_echo_text(tag, text);
        assert("# "@ + line.skip(2) =~= line);
    } else if line == "---"@ {
        assert(tag == "divider"@);
        assert("divider"@.len() == 7);
        assert("type"@.len() == 4);
        assert(tag != "type"@);
        let block = echo_block(tag, text);
        let es = match block {
            JsonView::Obj(inner) => inner,
            _ => Seq::empty(),
        };
        assert(block is Obj);
        assert(es.len() == 2);
        assert(es[0].0 == tag);
        assert(es.skip(1) =~= seq![("type"@, JsonView::Str(tag))]);
        assert(obj_lookup(es, "type"@) == obj_lookup(es.skip(1), "type"@));
        assert(obj_lookup(es.skip(1), "type"@) == Option::Some(JsonView::Str(tag)));
        assert(json_get(block, "type"@) == Option::Some(JsonView::Str(tag)));
        assert(block_text_of(block) == Option::Some("---"@));
    } else if has_prefix(line, "- "@) {
        assert(text.len() > 0);
        assert(tag == "bulleted_list_item"@);
        assert("bulleted_list_item"@.len() == 18);
        assert("type"@.len() == 4);
        assert("divider"@.len() == 7);
        assert(tag != "type"@);
        assert(tag != "divider"@);
        lemma_echo_text(tag, text);
        assert(("bulleted_list_item"@)[0] != ("heading_1"@)[0]);
        assert("- "@ + line.skip(2) =~= line);
    } else {
        assert(text.len() > 0) by {
            if line.len() == 0 {
                assert(crate::text::spec_blank(line));
            }
        }
        assert(tag == "paragraph"@);
        assert("paragraph"@.len() == 9);
        assert("type"@.len() == 4);
        assert("divider"@.len() == 7);
        assert(tag != "type"@);
        assert(tag != "divider"@);
        lemma_echo_text(tag, text);
        assert(("paragraph"@)[0] != ("heading_1"@)[0]);
        assert(("paragraph"@)[0] != ("heading_2"@)[0]);
        assert(("paragraph"@)[0] != ("heading_3"@)[0]);
    }
}

/// The input split at every newline (line ends keep nothing of the
/// newline; a trailing newline yields one final empty piece, which the
/// blank filter drops).
pub open spec fn split_nl(s: Seq<char>, cur: Seq<char>) -> Seq<Seq<char>>
    decreases s.len(),
{
    if s.len() == 0 {
        seq![cur]
    } else if s[0] == '\n' {
        seq![cur] + split_nl(s.skip(1), Seq::empty())
    } else {
        split_nl(s.skip(1), cur.push(s[0]))
    }
}

/// The blocks of a sequence of raw lines: each is trimmed, blank lines are
/// dropped, the rest convert.
pub open spec fn line_blocks(lines: Seq<Seq<char>>) -> Seq<JsonView>
    decreases lines.len(),
{
    if lines.len() == 0 {
        Seq::empty()
    } else {
        let rest = line_blocks(lines.skip(1));
        let t = trimmed(lines[0]);
        if crate::text::spec_blank(t) {
            rest
        } else {
            seq![md_line_block(t)] + rest
        }
    }
}

/// The block sequence of a whole Markdown text.
pub open spec fn md_blocks(content: Seq<char>) -> Seq<JsonView> {
    line_blocks(split_nl(content, Seq::empty()))
}

proof fn lemma_split_nl_acc(s: Seq<char>, cur: Seq<char>, k: int)
    requires
        0 <= k <= s.len(),
        forall|j: int| 0 <= j < k ==> s[j] != '\n',
        k < s.len() ==> s[k] == '\n',
    ensures
        k < s.len() ==> split_nl(s, cur) == seq![cur + s.take(k)] + split_nl(
            s.skip(k + 1),
            Seq::empty(),
        ),
        k == s.len() ==> split_nl(s, cur) == seq![cur + s],
    decreases k,
{
    if k == 0 {
        if s.len() == 0 {
            assert(cur + s =~= cur);
        } else if s[0] == '\n' {
            assert(cur + s.take(0) =~= cur);
            assert(s.skip(1) =~= s.skip(0int + 1));
        }
    } else {
        let s2 = s.skip(1);
        let cur2 = cur.push(s[0]);
        assert forall|j: int| 0 <= j < k - 1 implies s2[j] != '\n' by {
            assert(s2[j] == s[j + 1]);
        }
        assert(k - 1 < s2.len() ==> s2[k - 1] == s[k]);
        lemma_split_nl_acc(s2, cur2, k - 1);
        if k < s.len() {
            assert(cur2 + s2.take(k - 1) =~= cur + s.take(k));
            assert(s2.skip(k) =~= s.skip(k + 1));
        } else {
            assert(cur2 + s2 =~= cur + s);
        }
    }
}

/// Find the first newline at or after `from`, or the length.
fn find_nl(s: &str, from: usize) -> (r: usize)
    requires
        from <= s@.len(),
    ensures
        from <= r <= s@.len(),
        forall|j: int| from <= j < r ==> s@[j] != '\n',
        r < s@.len() ==> s@[r as int] == '\n',
{
    let n = s.unicode_len();
    let mut i = from;
    while i < n
        invariant
            n == s@.len(),
            from <= i <= n,
            forall|j: int| from <= j < i ==> s@[j] != '\n',
        decreases n - i,
    {
        if s.get_char(i) == '\n' {
            return i;
        }
        i = i + 1;
    }
    n
}

/// Build the member object carrying the line's text.
fn body_value(text: &str) -> (v: JsonValue)
    ensures
        v@ == body_rep(text@),
        sorted_json(v@),
{
    let mut content_entries: Vec<(String, JsonValue)> = Vec::new();
    content_entries.push((String::from_str("content"), JsonValue::Str(text.to_owned())));
    proof {
        lemma_obj_rep(content_entries);
    }
    let content_obj = JsonValue::Obj(content_entries);
    let mut item_entries: Vec<(String, JsonValue)> = Vec::new();
    item_entries.push((String::from_str("text"), content_obj));
    item_entries.push((String::from_str("type"), JsonValue::Str(String::from_str("text"))));
    proof {
        lemma_obj_rep(item_entries);
    }
    let item = JsonValue::Obj(item_entries);
    let mut arr_items: Vec<JsonValue> = Vec::new();
    arr_items.push(item);
    proof {
        lemma_arr_reps(arr_items);
    }
    let arr = JsonValue::Arr(arr_items);
    let mut body_entries: Vec<(String, JsonValue)> = Vec::new();
    body_entries.push((String::from_str("rich_text"), arr));
    proof {
        lemma_obj_rep(body_entries);
    }
    let v = JsonValue::Obj(body_entries);
    proof {
        reveal_strlit("content");
        reveal_strlit("text");
        reveal_strlit("type");
        reveal_strlit("rich_text");
        let content_es = match content_obj@ {
            JsonView::Obj(inner) => inner,
            _ => Seq::empty(),
        };
        assert(content_es =~= seq![("content"@, JsonView::Str(text@))]);
        assert(content_es.skip(1) =~= Seq::<(Seq<char>, JsonView)>::empty());
        assert(sorted_members(content_es.skip(1)));
        assert(sorted_json(content_es[0].1));
        assert(sorted_members(content_es));
        assert(keys_ordered(content_es));
        assert(sorted_json(content_obj@));
        let item_es = match item@ {
            JsonView::Obj(inner) => inner,
            _ => Seq::empty(),
        };
        assert(item_es =~= seq![("text"@, content_obj@), ("type"@, JsonView::Str("text"@))]);
        assert(str_lt("text"@.skip(1), "type"@.skip(1)));
        assert(str_lt("text"@, "type"@));
        assert(keys_ordered(item_es));
        assert(forall|i: int| 0 <= i < item_es.len() ==> sorted_json((#[trigger] item_es[i]).1));
        lemma_sorted_members_intro(item_es);
        assert(sorted_json(item@));
        let arr_is = match arr@ {
            JsonView::Arr(inner) => inner,
            _ => Seq::empty(),
        };
        assert(arr_is =~= seq![item@]);
        assert(forall|i: int| 0 <= i < arr_is.len() ==> sorted_json(#[trigger] arr_is[i]));
        lemma_sorted_items_intro(arr_is);
        assert(sorted_json(arr@));
        let body_es = match v@ {
            JsonView::Obj(inner) => inner,
            _ => Seq::empty(),
        };
        assert(body_es =~= seq![("rich_text"@, arr@)]);
        assert(keys_ordered(body_es));
        assert(forall|i: int| 0 <= i < body_es.len() ==> sorted_json((#[trigger] body_es[i]).1));
        lemma_sorted_members_intro(body_es);
        assert(sorted_json(v@));
        assert(v@ == body_rep(text@));
    }
    v
}

/// Build a block whose tag orders before `object`.
fn tag_block_value(tag: &str, body: JsonValue) -> (v: JsonValue)
    requires
        sorted_json(body@),
        str_lt(tag@, "object"@),
        str_lt(tag@, "type"@),
    ensures
        v@ == tag_block(tag@, body@),
        sorted_json(v@),
{
    let ghost body_v = body@;
    let mut entries: Vec<(String, JsonValue)> = Vec::new();
    entries.push((tag.to_owned(), body));
    entries.push((String::from_str("object"), JsonValue::Str(String::from_str("block"))));
    entries.push((String::from_str("type"), JsonValue::Str(tag.to_owned())));
    proof {
        lemma_obj_rep(entries);
    }
    let v = JsonValue::Obj(entries);
    proof {
        reveal_strlit("object");
        reveal_strlit("type");
        let es = match v@ {
            JsonView::Obj(inner) => inner,
            _ => Seq::empty(),
        };
        assert(es =~= seq![
            (tag@, body_v),
            ("object"@, JsonView::Str("block"@)),
            ("type"@, JsonView::Str(tag@)),
        ]);
        assert(str_lt("object"@, "type"@));
        assert(keys_ordered(es));
        assert(forall|i: int| 0 <= i < es.len() ==> sorted_json((#[trigger] es[i]).1));
        lemma_sorted_members_intro(es);
        assert(sorted_json(v@));
    }
    v
}

/// Build a paragraph block.
fn paragraph_value(text: &str) -> (v: JsonValue)
    ensures
        v@ == paragraph_block(text@),
        sorted_json(v@),
{
    let body = body_value(text);
    let ghost body_v = body@;
    let mut entries: Vec<(String, JsonValue)> = Vec::new();
    entries.push((String::from_str("object"), JsonValue::Str(String::from_str("block"))));
    entries.push((String::from_str("paragraph"), body));
    entries.push((String::from_str("type"), JsonValue::Str(String::from_str("paragraph"))));
    proof {
        lemma_obj_rep(entries);
    }
    let v = JsonValue::Obj(entries);
    proof {
        reveal_strlit("object");
        reveal_strlit("paragraph");
        reveal_strlit("type");
        let es = match v@ {
            JsonView::Obj(inner) => inner,
            _ => Seq::empty(),
        };
        assert(es =~= seq![
            ("object"@, JsonView::Str("block"@)),
            ("paragraph"@, body_v),
            ("type"@, JsonView::Str("paragraph"@)),
        ]);
        assert(str_lt("object"@, "paragraph"@));
        assert(str_lt("object"@, "type"@));
        assert(str_lt("paragraph"@, "type"@));
        assert(keys_ordered(es));
        assert(forall|i: int| 0 <= i < es.len() ==> sorted_json((#[trigger] es[i]).1));
        lemma_sorted_members_intro(es);
        assert(sorted_json(v@));
    }
    v
}

/// Convert one trimmed, non-blank Markdown line to its block.
fn line_block_value(line: &str) -> (v: JsonValue)
    requires
        line@.len() > 0,
    ensures
        v@ == md_line_block(line@),
        sorted_json(v@),
{
    let n = line.unicode_len();
    if starts_with_str(line, "## ") {
        proof {
            reveal_strlit("## ");
        }
        let body = body_value(line.substring_char(3, n));
        proof {
            reveal_strlit("heading_2");
            reveal_strlit("object");
            reveal_strlit("type");
            assert(str_lt("heading_2"@, "object"@));
            assert(str_lt("heading_2"@, "type"@));
            assert(line@.subrange(3, n as int) =~= line@.skip(3));
        }
        tag_block_value("heading_2", body)
    } else if starts_with_str(line, "# ") {
        proof {
            reveal_strlit("# ");
        }
        let body = body_value(line.substring_char(2, n));
        proof {
            reveal_strlit("heading_1");
            reveal_strlit("object");
            reveal_strlit("type");
            assert(str_lt("heading_1"@, "object"@));
            assert(str_lt("heading_1"@, "type"@));
            assert(line@.subrange(2, n as int) =~= line@.skip(2));
        }
        tag_block_value("heading_1", body)
    } else if str_eq(line, "---") {
        let empty_obj = JsonValue::Obj(Vec::new());
        proof {
            reveal_strlit("divider");
            reveal_strlit("object");
            reveal_strlit("type");
            let es = match empty_obj@ {
                JsonView::Obj(inner) => inner,
                _ => Seq::empty(),
            };
            assert(es =~= Seq::<(Seq<char>, JsonView)>::empty());
            assert(sorted_members(es));
            assert(keys_ordered(es));
            assert(sorted_json(empty_obj@));
            assert(str_lt("divider"@, "object"@));
            assert(str_lt("divider"@, "type"@));
        }
        tag_block_value("divider", empty_obj)
    } else if starts_with_str(line, "- ") {
        proof {
            reveal_strlit("- ");
        }
        let body = body_value(line.substring_char(2, n));
        proof {
            reveal_strlit("bulleted_list_item");
            reveal_strlit("object");
            reveal_strlit("type");
            assert(str_lt("bulleted_list_item"@, "object"@));
            assert(str_lt("bulleted_list_item"@, "type"@));
            assert(line@.subrange(2, n as int) =~= line@.skip(2));
        }
        tag_block_value("bulleted_list_item", body)
    } else {
        paragraph_value(line)
    }
}

/// Convert Markdown to its block tree, line by line.
pub fn markdown_to_blocks(content: &str) -> (r: Vec<JsonValue>)
    ensures
        reps_of(r@) == md_blocks(content@),
        sorted_items(reps_of(r@)),
{
    let ghost cv = content@;
    let n = content.unicode_len();
    let mut out: Vec<JsonValue> = Vec::new();
    let mut ls: usize = 0;
    let mut finished = false;
    proof {
        assert(cv.skip(0) =~= cv);
    }
    while !finished
        invariant
            cv == content@,
            n == cv.len(),
            ls <= n,
            !finished ==> md_blocks(cv) == reps_of(out@) + line_blocks(
                split_nl(cv.skip(ls as int), Seq::empty()),
            ),
            finished ==> md_blocks(cv) == reps_of(out@),
            forall|j: int| 0 <= j < reps_of(out@).len() ==> sorted_json(#[trigger] reps_of(out@)[j]),
        decreases n - ls, (if finished { 0int } else { 1int }),
    {
        let le = find_nl(content, ls);
        let ghost rest = cv.skip(ls as int);
        proof {
            assert forall|j: int| 0 <= j < le - ls implies rest[j] != '\n' by {
                assert(rest[j] == cv[ls + j]);
            }
            assert(le < n ==> rest[le - ls] == cv[le as int]);
            lemma_split_nl_acc(rest, Seq::empty(), le - ls);
            assert(Seq::empty() + rest.take(le - ls) =~= cv.subrange(ls as int, le as int));
            if le == n {
                assert(Seq::empty() + rest =~= cv.subrange(ls as int, le as int));
            } else {
                assert(rest.skip(le - ls + 1) =~= cv.skip(le as int + 1));
            }
        }
        let line = content.substring_char(ls, le);
        let t = trim_str(line);
        let ghost tl = trimmed(line@);
        if !is_blank(t) {
            proof {
                assert(t@.len() > 0) by {
                    if tl.len() == 0 {
                        assert(crate::text::spec_blank(tl));
                    }
                }
            }
            let b = line_block_value(t);
            let ghost old_out = out@;
            out.push(b);
            proof {
                assert(reps_of(out@) =~= reps_of(old_out).push(b@));
                assert(reps_of(old_out).push(b@) =~= reps_of(old_out) + seq![md_line_block(tl)]);
            }
        }
        proof {
            let lines = split_nl(rest, Seq::empty());
            if le < n {
                assert(lines == seq![cv.subrange(ls as int, le as int)] + split_nl(
                    cv.skip(le as int + 1),
                    Seq::empty(),
                ));
                assert(lines.skip(1) =~= split_nl(cv.skip(le as int + 1), Seq::empty()));
                assert(lines[0] == cv.subrange(ls as int, le as int));
            } else {
                assert(lines == seq![cv.subrange(ls as int, le as int)]);
                assert(lines.skip(1) =~= Seq::<Seq<char>>::empty());
            }
            assert(reps_of(out@) + (seq![md_line_block(tl)] + line_blocks(lines.skip(1)))
                =~= (reps_of(out@) + seq![md_line_block(tl)]) + line_blocks(lines.skip(1)));
        }
        if le == n {
            finished = true;
        } else {
            ls = le + 1;
        }
    }
    proof {
        lemma_sorted_items_intro(reps_of(out@));
    }
    out
}

} // verus!
