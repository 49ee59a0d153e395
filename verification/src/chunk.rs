//! Splitting a long text into translation-sized chunks.
//!
//! The text is cut at paragraph boundaries where possible; a paragraph too
//! large for one chunk is cut at sentence ends, and a single oversized
//! sentence goes out as its own chunk. Sizes count characters, roughly
//! three per token.

use vstd::prelude::*;

use crate::providers::{translate_part_prompt, translate_prompt};
use crate::providers::{TRANSLATE_HEAD, TRANSLATE_PART_A, TRANSLATE_PART_B, TRANSLATE_PART_C, TRANSLATE_TAIL};
use crate::text::{dec_digits, str_views};

verus! {

/// The largest chunk the packer aims for, in characters.
pub const MAX_CHUNK_CHARS: usize = 6000;

/// The token estimate under which a text is translated in one call.
pub const SMALL_TOKEN_LIMIT: usize = 2000;

/// Roughly three characters per token.
pub fn estimate_tokens(text: &str) -> (r: usize)
    ensures
        r == text@.len() / 3,
{
    text.unicode_len() / 3
}

/// A sentence-ending character.
pub open spec fn sentence_end(c: char) -> bool {
    c == '.' || c == '?' || c == '!' || c == '\u{3002}' || c == '\u{ff1f}' || c == '\u{ff01}'
}

/// The text split after each sentence end, keeping the ends; no trailing
/// empty piece.
pub open spec fn split_sentences(s: Seq<char>, cur: Seq<char>) -> Seq<Seq<char>>
    decreases s.len(),
{
    if s.len() == 0 {
        if cur.len() == 0 {
            Seq::empty()
        } else {
            seq![cur]
        }
    } else if sentence_end(s[0]) {
        seq![cur.push(s[0])] + split_sentences(s.skip(1), Seq::empty())
    } else {
        split_sentences(s.skip(1), cur.push(s[0]))
    }
}

/// The text split at each blank-line separator (two newlines).
pub open spec fn split_paras(s: Seq<char>, cur: Seq<char>) -> Seq<Seq<char>>
    decreases s.len(),
{
    if s.len() == 0 {
        seq![cur]
    } else if s.len() >= 2 && s[0] == '\n' && s[1] == '\n' {
        seq![cur] + split_paras(s.skip(2), Seq::empty())
    } else {
        split_paras(s.skip(1), cur.push(s[0]))
    }
}

/// Pack sentences: one that no longer fits closes the open chunk, and one
/// that alone exceeds the limit goes out unsplit.
pub open spec fn pack_sentences(
    sents: Seq<Seq<char>>,
    max: int,
    chunks: Seq<Seq<char>>,
    cur: Seq<char>,
) -> (Seq<Seq<char>>, Seq<char>)
    decreases sents.len(),
{
    if sents.len() == 0 {
        (chunks, cur)
    } else {
        let sent = sents[0];
        if cur.len() + sent.len() > max {
            let flushed = if cur.len() > 0 {
                chunks.push(cur)
            } else {
                chunks
            };
            if sent.len() > max {
                pack_sentences(sents.skip(1), max, flushed.push(sent), Seq::empty())
            } else {
                pack_sentences(sents.skip(1), max, flushed, sent)
            }
        } else {
            pack_sentences(sents.skip(1), max, chunks, cur + sent)
        }
    }
}

/// Pack paragraphs: an oversized one is packed sentence by sentence, one
/// that no longer fits (with its two-newline separator) closes the open
/// chunk, and the rest extend it.
pub open spec fn pack_paras(
    paras: Seq<Seq<char>>,
    max: int,
    chunks: Seq<Seq<char>>,
    cur: Seq<char>,
) -> (Seq<Seq<char>>, Seq<char>)
    decreases paras.len(),
{
    if paras.len() == 0 {
        (chunks, cur)
    } else {
        let para = paras[0];
        if para.len() > max {
            let flushed = if cur.len() > 0 {
                chunks.push(cur)
            } else {
                chunks
            };
            let packed = pack_sentences(split_sentences(para, Seq::empty()), max, flushed, Seq::empty());
            pack_paras(paras.skip(1), max, packed.0, packed.1)
        } else if cur.len() + para.len() + 2 > max {
            let flushed = if cur.len() > 0 {
                chunks.push(cur)
            } else {
                chunks
            };
            pack_paras(paras.skip(1), max, flushed, para)
        } else {
            let joined = if cur.len() > 0 {
                cur + "\n\n"@ + para
            } else {
                cur + para
            };
            pack_paras(paras.skip(1), max, chunks, joined)
        }
    }
}

/// The chunks a text is split into: its paragraphs packed, the open chunk
/// closed, and the text itself when nothing else came out.
pub open spec fn chunk_plan(content: Seq<char>, max: int) -> Seq<Seq<char>> {
    let packed = pack_paras(split_paras(content, Seq::empty()), max, Seq::empty(), Seq::empty());
    let flushed = if packed.1.len() > 0 {
        packed.0.push(packed.1)
    } else {
        packed.0
    };
    if flushed.len() == 0 {
        seq![content]
    } else {
        flushed
    }
}

proof fn lemma_split_paras_acc(s: Seq<char>, cur: Seq<char>, k: int)
    requires
        0 <= k <= s.len(),
        forall|j: int|
            0 <= j < k ==> !(j + 1 < s.len() && #[trigger] s[j] == '\n' && s[j + 1] == '\n'),
        k < s.len() ==> k + 1 < s.len() && s[k] == '\n' && s[k + 1] == '\n',
    ensures
        k < s.len() ==> split_paras(s, cur) == seq![cur + s.take(k)] + split_paras(
            s.skip(k + 2),
            Seq::empty(),
        ),
        k == s.len() ==> split_paras(s, cur) == seq![cur + s],
    decreases k,
{
    if k == 0 {
        if s.len() == 0 {
            assert(cur + s =~= cur);
        } else {
            assert(cur + s.take(0) =~= cur);
        }
    } else {
        let s2 = s.skip(1);
        let cur2 = cur.push(s[0]);
        assert forall|j: int|
            0 <= j < k - 1 implies !(j + 1 < s2.len() && #[trigger] s2[j] == '\n' && s2[j + 1]
            == '\n') by {
            assert(s2[j] == s[j + 1]);
            assert(j + 1 < s2.len() ==> s2[j + 1] == s[j + 2]);
        }
        assert(k - 1 < s2.len() ==> (s2[k - 1] == s[k] && (k < s2.len() ==> s2[k] == s[k + 1])));
        lemma_split_paras_acc(s2, cur2, k - 1);
        if k < s.len() {
            assert(cur2 + s2.take(k - 1) =~= cur + s.take(k));
            assert(s2.skip(k + 1) =~= s.skip(k + 2));
        } else {
            assert(cur2 + s2 =~= cur + s);
        }
    }
}

proof fn lemma_split_sentences_acc(s: Seq<char>, cur: Seq<char>, k: int)
    requires
        0 <= k <= s.len(),
        forall|j: int| 0 <= j < k ==> !sentence_end(s[j]),
        k < s.len() ==> sentence_end(s[k]),
    ensures
        k < s.len() ==> split_sentences(s, cur) == seq![cur + s.take(k + 1)] + split_sentences(
            s.skip(k + 1),
            Seq::empty(),
        ),
        k == s.len() ==> split_sentences(s, cur) == (if (cur + s).len() == 0 {
            Seq::<Seq<char>>::empty()
        } else {
            seq![cur + s]
        }),
    decreases k,
{
    if k == 0 {
        if s.len() == 0 {
            assert(cur + s =~= cur);
        } else {
            assert(cur.push(s[0]) =~= cur + s.take(1));
        }
    } else {
        let s2 = s.skip(1);
        let cur2 = cur.push(s[0]);
        assert forall|j: int| 0 <= j < k - 1 implies !sentence_end(s2[j]) by {
            assert(s2[j] == s[j + 1]);
        }
        assert(k - 1 < s2.len() ==> s2[k - 1] == s[k]);
        lemma_split_sentences_acc(s2, cur2, k - 1);
        if k < s.len() {
            assert(cur2 + s2.take(k) =~= cur + s.take(k + 1));
            assert(s2.skip(k) =~= s.skip(k + 1));
        } else {
            assert(cur2 + s2 =~= cur + s);
            assert((cur2 + s2).len() > 0);
            assert((cur + s).len() > 0);
        }
    }
}

/// Whether the character ends a sentence.
fn is_sentence_end(c: char) -> (r: bool)
    ensures
        r == sentence_end(c),
{
    c == '.' || c == '?' || c == '!' || c == '\u{3002}' || c == '\u{ff1f}' || c == '\u{ff01}'
}

/// Split the text at blank-line separators.
fn paras_of(s: &str) -> (r: Vec<String>)
    ensures
        str_views(r@) == split_paras(s@, Seq::empty()),
{
    let ghost sv = s@;
    let n = s.unicode_len();
    let mut out: Vec<String> = Vec::new();
    let mut ls: usize = 0;
    let mut done = false;
    proof {
        assert(sv.skip(0) =~= sv);
    }
    while !done
        invariant
            sv == s@,
            n == sv.len(),
            ls <= n,
            !done ==> split_paras(sv, Seq::empty()) == str_views(out@) + split_paras(
                sv.skip(ls as int),
                Seq::empty(),
            ),
            done ==> split_paras(sv, Seq::empty()) == str_views(out@),
        decreases n + 1 - ls, (if done { 0int } else { 1int }),
    {
        let ghost rest = sv.skip(ls as int);
        let mut i = ls;
        while i < n && !(s.get_char(i) == '\n' && i + 1 < n && s.get_char(i + 1) == '\n')
            invariant
                sv == s@,
                n == sv.len(),
                ls <= i <= n,
                forall|j: int|
                    ls <= j < i ==> !(j + 1 < n && #[trigger] sv[j] == '\n' && sv[j + 1] == '\n'),
            decreases n - i,
        {
            i = i + 1;
        }
        proof {
            assert forall|j: int|
                0 <= j < i - ls implies !(j + 1 < rest.len() && #[trigger] rest[j] == '\n' && rest[j
                + 1] == '\n') by {
                assert(rest[j] == sv[ls + j]);
                assert(j + 1 < rest.len() ==> rest[j + 1] == sv[ls + j + 1]);
            }
            if i < n {
                assert(rest[i - ls] == sv[i as int]);
                assert(rest[i - ls + 1] == sv[i as int + 1]);
            }
            lemma_split_paras_acc(rest, Seq::empty(), i - ls);
            assert(Seq::empty() + rest.take(i - ls) =~= sv.subrange(ls as int, i as int));
            if i == n {
                assert(Seq::empty() + rest =~= sv.subrange(ls as int, i as int));
            } else {
                assert(rest.skip(i - ls + 2) =~= sv.skip(i as int + 2));
            }
        }
        let piece = s.substring_char(ls, i);
        let ghost old_out = str_views(out@);
        out.push(piece.to_owned());
        proof {
            assert(str_views(out@) =~= old_out.push(sv.subrange(ls as int, i as int)));
            assert(old_out + (seq![sv.subrange(ls as int, i as int)] + split_paras(
                sv.skip(i as int + 2),
                Seq::empty(),
            )) =~= str_views(out@) + split_paras(sv.skip(i as int + 2), Seq::empty()));
        }
        if i == n {
            done = true;
        } else {
            ls = i + 2;
        }
    }
    out
}

/// Split the text after each sentence end.
fn sentences_of(s: &str) -> (r: Vec<String>)
    ensures
        str_views(r@) == split_sentences(s@, Seq::empty()),
{
    let ghost sv = s@;
    let n = s.unicode_len();
    let mut out: Vec<String> = Vec::new();
    let mut ls: usize = 0;
    proof {
        assert(sv.skip(0) =~= sv);
    }
    while ls < n
        invariant
            sv == s@,
            n == sv.len(),
            ls <= n,
            split_sentences(sv, Seq::empty()) == str_views(out@) + split_sentences(
                sv.skip(ls as int),
                Seq::empty(),
            ),
        decreases n - ls,
    {
        let ghost rest = sv.skip(ls as int);
        let mut i = ls;
        while i < n && !is_sentence_end(s.get_char(i))
            invariant
                sv == s@,
                n == sv.len(),
                ls <= i <= n,
                forall|j: int| ls <= j < i ==> !sentence_end(sv[j]),
            decreases n - i,
        {
            i = i + 1;
        }
        proof {
            assert forall|j: int| 0 <= j < i - ls implies !sentence_end(rest[j]) by {
                assert(rest[j] == sv[ls + j]);
            }
            if i < n {
                assert(rest[i - ls] == sv[i as int]);
            }
            lemma_split_sentences_acc(rest, Seq::empty(), i - ls);
        }
        let ghost old_out = str_views(out@);
        if i == n {
            let piece = s.substring_char(ls, n);
            proof {
                assert(Seq::empty() + rest =~= sv.subrange(ls as int, n as int));
                assert(rest.len() > 0);
                assert((Seq::empty() + rest).len() > 0);
            }
            out.push(piece.to_owned());
            proof {
                assert(str_views(out@) =~= old_out.push(sv.subrange(ls as int, n as int)));
                assert(old_out + seq![sv.subrange(ls as int, n as int)] =~= str_views(out@));
                assert(str_views(out@) + split_sentences(sv.skip(n as int), Seq::empty())
                    =~= str_views(out@)) by {
                    assert(sv.skip(n as int) =~= Seq::<char>::empty());
                }
            }
            ls = n;
        } else {
            let piece = s.substring_char(ls, i + 1);
            proof {
                assert(Seq::empty() + rest.take(i - ls + 1) =~= sv.subrange(
                    ls as int,
                    i as int + 1,
                ));
                assert(rest.skip(i - ls + 1) =~= sv.skip(i as int + 1));
            }
            out.push(piece.to_owned());
            proof {
                assert(str_views(out@) =~= old_out.push(sv.subrange(ls as int, i as int + 1)));
                assert(old_out + (seq![sv.subrange(ls as int, i as int + 1)] + split_sentences(
                    sv.skip(i as int + 1),
                    Seq::empty(),
                )) =~= str_views(out@) + split_sentences(sv.skip(i as int + 1), Seq::empty()));
            }
            ls = i + 1;
        }
    }
    proof {
        assert(sv.skip(n as int) =~= Seq::<char>::empty());
        assert(str_views(out@) + Seq::<Seq<char>>::empty() =~= str_views(out@));
    }
    out
}

/// Pack a run of sentences into the chunk list.
fn pack_sentences_run(sents: &Vec<String>, chunks: Vec<String>, cur: String) -> (r: (
    Vec<String>,
    String,
))
    ensures
        (str_views(r.0@), r.1@) == pack_sentences(
            str_views(sents@),
            6000,
            str_views(chunks@),
            cur@,
        ),
{
    let ghost sv = str_views(sents@);
    let ghost goal = pack_sentences(sv, 6000, str_views(chunks@), cur@);
    let mut chunks = chunks;
    let mut cur = cur;
    let n = sents.len();
    proof {
        assert(sv.skip(0) =~= sv);
    }
    for i in 0..n
        invariant
            sv == str_views(sents@),
            n == sents@.len(),
            sv.len() == n,
            goal == pack_sentences(sv.skip(i as int), 6000, str_views(chunks@), cur@),
    {
        proof {
            assert(sv.skip(i as int)[0] == sv[i as int]);
            assert(sv[i as int] == sents@[i as int]@);
            assert(sv.skip(i as int).skip(1) =~= sv.skip(i as int + 1));
        }
        let sent_len = sents[i].as_str().unicode_len();
        let cur_len = cur.as_str().unicode_len();
        if cur_len as u128 + sent_len as u128 > 6000u128 {
            let ghost old_chunks = str_views(chunks@);
            if cur_len > 0 {
                chunks.push(cur);
                proof {
                    assert(str_views(chunks@) =~= old_chunks.push(cur@));
                }
            }
            cur = String::new();
            if sent_len > 6000 {
                let ghost flushed = str_views(chunks@);
                chunks.push(sents[i].clone());
                proof {
                    assert(str_views(chunks@) =~= flushed.push(sv[i as int]));
                }
            } else {
                cur = sents[i].clone();
            }
        } else {
            let ghost cur_old = cur@;
            cur.append(sents[i].as_str());
            proof {
                assert(cur@ == cur_old + sv[i as int]);
            }
        }
    }
    proof {
        assert(sv.skip(n as int) =~= Seq::<Seq<char>>::empty());
    }
    (chunks, cur)
}

/// Split the content into translation chunks.
///
/// Paragraphs are packed whole where they fit; an oversized paragraph is
/// cut at sentence ends; an oversized sentence goes out alone; an input
/// that produces nothing else comes back as the single chunk.
pub fn split_content_for_translation(content: &str) -> (r: Vec<String>)
    ensures
        str_views(r@) == chunk_plan(content@, 6000),
{
    let ghost cv = content@;
    let paras = paras_of(content);
    let ghost pv = str_views(paras@);
    let ghost goal = pack_paras(pv, 6000, Seq::empty(), Seq::empty());
    let mut chunks: Vec<String> = Vec::new();
    let mut cur = String::new();
    let n = paras.len();
    proof {
        assert(pv.skip(0) =~= pv);
        assert(str_views(chunks@) =~= Seq::<Seq<char>>::empty());
    }
    for i in 0..n
        invariant
            pv == str_views(paras@),
            n == paras@.len(),
            pv.len() == n,
            goal == pack_paras(pv.skip(i as int), 6000, str_views(chunks@), cur@),
    {
        proof {
            assert(pv.skip(i as int)[0] == pv[i as int]);
            assert(pv[i as int] == paras@[i as int]@);
            assert(pv.skip(i as int).skip(1) =~= pv.skip(i as int + 1));
        }
        let para_len = paras[i].as_str().unicode_len();
        let cur_len = cur.as_str().unicode_len();
        if para_len > 6000 {
            let ghost old_chunks = str_views(chunks@);
            if cur_len > 0 {
                chunks.push(cur);
                proof {
                    assert(str_views(chunks@) =~= old_chunks.push(cur@));
                }
            }
            cur = String::new();
            let sents = sentences_of(paras[i].as_str());
            let packed = pack_sentences_run(&sents, chunks, cur);
            chunks = packed.0;
            cur = packed.1;
        } else if cur_len as u128 + para_len as u128 + 2u128 > 6000u128 {
            let ghost old_chunks = str_views(chunks@);
            if cur_len > 0 {
                chunks.push(cur);
                proof {
                    assert(str_views(chunks@) =~= old_chunks.push(cur@));
                }
            }
            cur = paras[i].clone();
        } else {
            let ghost cur_old = cur@;
            if cur_len > 0 {
                cur.append("\n\n");
                cur.append(paras[i].as_str());
                proof {
                    assert(cur@ == cur_old + "\n\n"@ + pv[i as int]);
                }
            } else {
                cur.append(paras[i].as_str());
                proof {
                    assert(cur@ =~= cur_old + pv[i as int]);
                }
            }
        }
    }
    proof {
        assert(pv.skip(n as int) =~= Seq::<Seq<char>>::empty());
    }
    if cur.as_str().unicode_len() > 0 {
        let ghost old_chunks = str_views(chunks@);
        chunks.push(cur);
        proof {
            assert(str_views(chunks@) =~= old_chunks.push(goal.1));
        }
    }
    if chunks.len() == 0 {
        chunks.push(content.to_owned());
        proof {
            assert(str_views(chunks@) =~= seq![cv]);
        }
    }
    chunks
}

/// The prompt of each translation call: one simple prompt when the text
/// is small, else one numbered prompt per chunk (a single chunk keeps the
/// simple wording).
pub fn translation_prompts(content: &str, target_lang: &str) -> (r: Vec<String>)
    ensures
        content@.len() / 3 < 2000 ==> (r@.len() == 1 && r@[0]@ == TRANSLATE_HEAD@ + target_lang@
            + TRANSLATE_TAIL@ + content@),
        content@.len() / 3 >= 2000 ==> {
            let chunks = chunk_plan(content@, 6000);
            &&& r@.len() == chunks.len()
            &&& (chunks.len() == 1 ==> r@[0]@ == TRANSLATE_HEAD@ + target_lang@ + TRANSLATE_TAIL@
                + chunks[0])
            &&& (chunks.len() > 1 ==> forall|i: int|
                0 <= i < chunks.len() ==> (#[trigger] r@[i])@ == TRANSLATE_HEAD@ + target_lang@
                    + TRANSLATE_PART_A@ + dec_digits(i + 1) + TRANSLATE_PART_B@ + dec_digits(
                    chunks.len() as int,
                ) + TRANSLATE_PART_C@ + chunks[i])
        },
{
    let mut out: Vec<String> = Vec::new();
    if estimate_tokens(content) < 2000 {
        out.push(translate_prompt(content, target_lang));
        return out;
    }
    let chunks = split_content_for_translation(content);
    let ghost cp = chunk_plan(content@, 6000);
    let total = chunks.len();
    if total == 1 {
        out.push(translate_prompt(chunks[0].as_str(), target_lang));
        return out;
    }
    proof {
        assert(cp.len() >= 1);
    }
    for i in 0..total
        invariant
            total == chunks@.len(),
            total > 1,
            cp == str_views(chunks@),
            out@.len() == i,
            forall|j: int|
                0 <= j < i ==> (#[trigger] out@[j])@ == TRANSLATE_HEAD@ + target_lang@
                    + TRANSLATE_PART_A@ + dec_digits(j + 1) + TRANSLATE_PART_B@ + dec_digits(
                    cp.len() as int,
                ) + TRANSLATE_PART_C@ + cp[j],
    {
        out.push(
            translate_part_prompt(chunks[i].as_str(), target_lang, (i + 1) as u64, total as u64),
        );
    }
    out
}

} // verus!
