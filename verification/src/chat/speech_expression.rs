//! The speech-expression output protocol: assistant replies may carry a
//! `<voice_exp>…</voice_exp>` block describing how the reply should be voiced.
use vstd::prelude::*;

use super::types::SystemPromptEntry;
use crate::text::{
    chars_of, find_from, first_at_or_after, is_whitespace, is_ws, lemma_first_at_or_after,
    push_chars, str_eq, string_from_range, string_of, trim, trim_bounds,
};

verus! {

pub const SPEECH_EXPRESSION_ENTRY_ID: &'static str = "entry_speech_expression_protocol";

pub const OPEN_TAG: &'static str = "<voice_exp>";

pub const CLOSE_TAG: &'static str = "</voice_exp>";

pub const MAX_CONTEXT_CHARS: usize = 200;

pub struct ParsedSpeechExpression {
    pub content: String,
    pub context_text: Option<String>,
}

pub open spec fn open_tag() -> Seq<char> {
    "<voice_exp>"@
}

pub open spec fn close_tag() -> Seq<char> {
    "</voice_exp>"@
}

/// Words of `s` (maximal runs of non-whitespace), given the word `cur` already being read.
pub open spec fn words_from(s: Seq<char>, cur: Seq<char>) -> Seq<Seq<char>>
    decreases s.len(),
{
    let done = if cur.len() > 0 {
        seq![cur]
    } else {
        Seq::empty()
    };
    if s.len() == 0 {
        done
    } else if is_ws(s[0]) {
        done + words_from(s.drop_first(), Seq::empty())
    } else {
        words_from(s.drop_first(), cur.push(s[0]))
    }
}

/// `str::split_whitespace`.
pub open spec fn words(s: Seq<char>) -> Seq<Seq<char>> {
    words_from(s, Seq::empty())
}

/// Words joined by single spaces.
pub open spec fn join_words(ws: Seq<Seq<char>>) -> Seq<char>
    decreases ws.len(),
{
    if ws.len() == 0 {
        Seq::empty()
    } else if ws.len() == 1 {
        ws[0]
    } else {
        join_words(ws.drop_last()) + seq![' '] + ws.last()
    }
}

/// View of an optional character vector.
pub open spec fn opt_seq(o: Option<Vec<char>>) -> Option<Seq<char>> {
    match o {
        Some(v) => Some(v@),
        None => None,
    }
}

/// Whitespace-collapsed text, at most `MAX_CONTEXT_CHARS` characters; `None` when blank.
pub open spec fn normalize_context(value: Seq<char>) -> Option<Seq<char>> {
    let n = join_words(words(value));
    if n.len() == 0 {
        None
    } else {
        Some(n.take(if n.len() < 200 { n.len() as int } else { 200 }))
    }
}

/// Text outside complete voice blocks from `pos` on, and the last non-blank block text.
/// An unclosed block hides the rest of the text.
pub open spec fn strip_from(s: Seq<char>, pos: int, ctx: Option<Seq<char>>) -> (
    Seq<char>,
    Option<Seq<char>>,
)
    decreases s.len() - pos,
{
    if pos < 0 || pos > s.len() {
        (Seq::empty(), ctx)
    } else {
        match first_at_or_after(s, open_tag(), pos) {
            None => (s.subrange(pos, s.len() as int), ctx),
            Some(o) => match first_at_or_after(s, close_tag(), o + open_tag().len()) {
                None => (s.subrange(pos, o), ctx),
                Some(c) => {
                    proof {
                        lemma_first_at_or_after(s, open_tag(), pos);
                        lemma_first_at_or_after(s, close_tag(), o + open_tag().len());
                        reveal_strlit("</voice_exp>");
                    }
                    let ctx2 = match normalize_context(s.subrange(o + open_tag().len(), c)) {
                        Some(n) => Some(n),
                        None => ctx,
                    };
                    let rest = strip_from(s, c + close_tag().len(), ctx2);
                    (s.subrange(pos, o) + rest.0, rest.1)
                },
            },
        }
    }
}

/// The visible reply: the text outside voice blocks, trimmed.
pub open spec fn visible_content(s: Seq<char>) -> Seq<char> {
    trim(strip_from(s, 0, None).0)
}

/// The voicing instruction: the last non-blank voice block, normalized.
pub open spec fn context_text(s: Seq<char>) -> Option<Seq<char>> {
    strip_from(s, 0, None).1
}

/// Collapses whitespace runs to single spaces and keeps at most `MAX_CONTEXT_CHARS` characters.
pub fn normalize_context_text(value: &Vec<char>, from: usize, to: usize) -> (r: Option<Vec<char>>)
    requires
        from <= to <= value.len(),
    ensures
        opt_seq(r) == normalize_context(value@.subrange(from as int, to as int)),
{
    let ghost s = value@.subrange(from as int, to as int);
    let ghost mut done: Seq<Seq<char>> = Seq::empty();
    let mut out: Vec<char> = Vec::new();
    let mut cur: Vec<char> = Vec::new();
    let mut nwords: usize = 0;
    let mut i: usize = from;
    assert(s.skip(0) =~= s);
    while i < to
        invariant
            from <= i <= to <= value.len(),
            s == value@.subrange(from as int, to as int),
            words(s) == done + words_from(s.skip(i - from), cur@),
            out@ == join_words(done),
            nwords == done.len(),
            nwords <= i - from,
            cur@.len() <= i - from,
        decreases to - i,
    {
        let c = value[i];
        let ghost t = s.skip(i - from);
        let ghost t1 = s.skip(i + 1 - from);
        assert(t[0] == c);
        assert(t.drop_first() =~= t1);
        if is_whitespace(c) {
            if cur.len() > 0 {
                proof {
                    assert(words_from(t, cur@) == seq![cur@] + words_from(t1, Seq::empty()));
                    assert(done + (seq![cur@] + words_from(t1, Seq::empty())) =~= done.push(cur@)
                        + words_from(t1, Seq::empty()));
                    assert(done.push(cur@).drop_last() =~= done);
                    done = done.push(cur@);
                }
                if nwords > 0 {
                    out.push(' ');
                }
                push_vec(&mut out, &cur);
                nwords += 1;
                cur = Vec::new();
            } else {
                proof {
                    assert(words_from(t, cur@) == Seq::<Seq<char>>::empty() + words_from(
                        t1,
                        Seq::empty(),
                    ));
                    assert(Seq::<Seq<char>>::empty() + words_from(t1, Seq::empty()) =~= words_from(
                        t1,
                        Seq::empty(),
                    ));
                    assert(cur@ =~= Seq::<char>::empty());
                }
            }
        } else {
            proof {
                assert(words_from(t, cur@) == words_from(t1, cur@.push(c)));
            }
            cur.push(c);
        }
        i += 1;
    }
    proof {
        let t = s.skip(to - from);
        assert(t.len() == 0);
        if cur.len() > 0 {
            assert(words_from(t, cur@) == seq![cur@]);
            assert(done + seq![cur@] =~= done.push(cur@));
            assert(done.push(cur@).drop_last() =~= done);
        } else {
            assert(words_from(t, cur@) == Seq::<Seq<char>>::empty());
            assert(done + Seq::<Seq<char>>::empty() =~= done);
        }
    }
    if cur.len() > 0 {
        if nwords > 0 {
            out.push(' ');
        }
        push_vec(&mut out, &cur);
        proof {
            done = done.push(cur@);
        }
    }
    assert(words(s) == done);
    assert(out@ == join_words(words(s)));
    if out.len() == 0 {
        return None;
    }
    let keep: usize = if out.len() < MAX_CONTEXT_CHARS { out.len() } else { MAX_CONTEXT_CHARS };
    let mut kept: Vec<char> = Vec::new();
    let mut k: usize = 0;
    while k < keep
        invariant
            keep <= out.len(),
            k <= keep,
            kept@ == out@.take(k as int),
        decreases keep - k,
    {
        kept.push(out[k]);
        k += 1;
        assert(kept@ =~= out@.take(k as int));
    }
    Some(kept)
}

/// Appends all characters of `tail` to `v`.
fn push_vec(v: &mut Vec<char>, tail: &Vec<char>)
    ensures
        final(v)@ == old(v)@ + tail@,
{
    let mut i: usize = 0;
    while i < tail.len()
        invariant
            i <= tail.len(),
            v@ == old(v)@ + tail@.take(i as int),
        decreases tail.len() - i,
    {
        v.push(tail[i]);
        i += 1;
        assert(v@ =~= old(v)@ + tail@.take(i as int));
    }
    assert(tail@.take(tail@.len() as int) =~= tail@);
}

/// Appends `src[from..to]` to `v`.
fn push_range(v: &mut Vec<char>, src: &Vec<char>, from: usize, to: usize)
    requires
        from <= to <= src.len(),
    ensures
        final(v)@ == old(v)@ + src@.subrange(from as int, to as int),
{
    let mut i: usize = from;
    while i < to
        invariant
            from <= i <= to <= src.len(),
            v@ == old(v)@ + src@.subrange(from as int, i as int),
        decreases to - i,
    {
        v.push(src[i]);
        i += 1;
        assert(v@ =~= old(v)@ + src@.subrange(from as int, i as int));
    }
}

/// Splits a reply into its visible text and its voicing instruction.
pub fn parse(content: &str) -> (r: ParsedSpeechExpression)
    ensures
        r.content@ == visible_content(content@),
        opt_string_seq(r.context_text) == context_text(content@),
{
    let s = chars_of(content);
    let open = chars_of(OPEN_TAG);
    let close = chars_of(CLOSE_TAG);
    proof {
        reveal_strlit("<voice_exp>");
        reveal_strlit("</voice_exp>");
    }
    let mut visible: Vec<char> = Vec::new();
    let mut ctx: Option<Vec<char>> = None;
    let mut pos: usize = 0;
    let ghost result = strip_from(s@, 0, None);
    loop
        invariant_except_break
            pos <= s.len(),
            result.0 == visible@ + strip_from(s@, pos as int, opt_seq(ctx)).0,
            result.1 == strip_from(s@, pos as int, opt_seq(ctx)).1,
        invariant
            open@ == open_tag(),
            close@ == close_tag(),
            open@.len() == 11,
            close@.len() == 12,
            result == strip_from(s@, 0, None),
        ensures
            result.0 == visible@,
            result.1 == opt_seq(ctx),
        decreases s.len() - pos,
    {
        let ghost ctxv = opt_seq(ctx);
        let ghost p = pos as int;
        match find_from(&s, &open, pos) {
            None => {
                proof {
                    assert(strip_from(s@, p, ctxv) == (s@.subrange(p, s@.len() as int), ctxv));
                }
                push_range(&mut visible, &s, pos, s.len());
                break;
            },
            Some(o) => {
                let tag_end = o + open.len();
                match find_from(&s, &close, tag_end) {
                    None => {
                        proof {
                            assert(strip_from(s@, p, ctxv) == (s@.subrange(p, o as int), ctxv));
                        }
                        push_range(&mut visible, &s, pos, o);
                        break;
                    },
                    Some(c) => {
                        let ghost ctx2 = match normalize_context(s@.subrange(tag_end as int, c as int)) {
                            Some(n) => Some(n),
                            None => ctxv,
                        };
                        proof {
                            let rest = strip_from(s@, c + 12, ctx2);
                            assert(strip_from(s@, p, ctxv) == (s@.subrange(p, o as int) + rest.0, rest.1));
                        }
                        push_range(&mut visible, &s, pos, o);
                        match normalize_context_text(&s, tag_end, c) {
                            Some(n) => {
                                ctx = Some(n);
                            },
                            None => {},
                        }
                        assert(opt_seq(ctx) == ctx2);
                        pos = c + close.len();
                        proof {
                            let rest = strip_from(s@, pos as int, ctx2);
                            assert(result.0 =~= visible@ + rest.0);
                        }
                    },
                }
            },
        }
    }
    let (a, b) = trim_bounds(&visible);
    let content_out = string_from_range(&visible, a, b);
    let context_out = match ctx {
        Some(c) => Some(string_of(&c)),
        None => None,
    };
    ParsedSpeechExpression { content: content_out, context_text: context_out }
}

/// View of an optional string.
pub open spec fn opt_string_seq(o: Option<String>) -> Option<Seq<char>> {
    match o {
        Some(v) => Some(v@),
        None => None,
    }
}

/// The entries other than the speech-expression protocol entry, in order.
pub open spec fn without_protocol(entries: Seq<SystemPromptEntry>) -> Seq<SystemPromptEntry>
    decreases entries.len(),
{
    if entries.len() == 0 {
        entries
    } else {
        let kept = without_protocol(entries.drop_last());
        if entries.last().id@ != "entry_speech_expression_protocol"@ {
            kept.push(entries.last())
        } else {
            kept
        }
    }
}

/// Removes the speech-expression protocol entry from a system prompt.
pub fn remove_protocol(entries: Vec<SystemPromptEntry>) -> (r: Vec<SystemPromptEntry>)
    ensures
        r@ == without_protocol(entries@),
{
    let ghost all = entries@;
    let mut kept: Vec<SystemPromptEntry> = Vec::new();
    for e in it: entries
        invariant
            it.seq() == all,
            kept@ == without_protocol(all.take(it.index() as int)),
    {
        proof {
            assert(all.take(it.index() + 1).drop_last() =~= all.take(it.index() as int));
        }
        if !str_eq(e.id.as_str(), SPEECH_EXPRESSION_ENTRY_ID) {
            kept.push(e);
        }
    }
    assert(all.take(all.len() as int) =~= all);
    kept
}

/// Text without any voice block is only trimmed, and carries no voicing instruction.
pub proof fn law_plain_text_passes_through(s: Seq<char>)
    requires
        first_at_or_after(s, open_tag(), 0) is None,
    ensures
        visible_content(s) == trim(s),
        context_text(s) is None,
{
    assert(s.subrange(0, s.len() as int) =~= s);
}

/// A voicing instruction is never blank and never longer than the limit.
pub proof fn law_context_is_bounded(value: Seq<char>)
    ensures
        normalize_context(value) matches Some(t) ==> 0 < t.len() <= 200,
{
}

} // verus!
