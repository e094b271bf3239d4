//! The tokenizer and the pipeline segmenter.
//!
//! A raw input line is scanned left to right into word tokens. Double quotes
//! group characters (including spaces and pipes) into one token, a backslash
//! escapes the next character, and an unquoted, unescaped `|` becomes a
//! standalone pipe token. The segmenter then groups the token list into
//! pipeline stages, splitting on the pipe token and dropping empty stages.
//!
//! The scanning automaton itself is the specification: `tokenizer_step` is
//! the transition function over one character, and `spec_tokenize` folds it
//! over the whole line. The executable functions are proved to compute
//! exactly that fold.

use vstd::prelude::*;
use vstd::string::*;

verus! {

/// The state of the tokenizer's scan: the tokens emitted so far, the token
/// being accumulated, and the two scanning flags.
pub struct TokenizerState {
    /// Tokens already emitted, in order.
    pub tokens: Seq<Seq<char>>,
    /// The characters of the token currently being accumulated.
    pub cur: Seq<char>,
    /// Whether the scan is inside an (unclosed) double quote.
    pub in_quotes: bool,
    /// Whether the previous character was an unconsumed backslash.
    pub escaped: bool,
}

/// The scan state at the start of a line: nothing emitted, nothing pending.
pub open spec fn tokenizer_init() -> TokenizerState {
    TokenizerState {
        tokens: Seq::empty(),
        cur: Seq::empty(),
        in_quotes: false,
        escaped: false,
    }
}

/// The pipe token, as emitted for an unquoted, unescaped `|`.
pub open spec fn pipe_token() -> Seq<char> {
    seq!['|']
}

/// Emits the pending token if it is non-empty; empty pending tokens are
/// dropped, so consecutive separators never produce empty tokens.
pub open spec fn flush_current(st: TokenizerState) -> TokenizerState {
    if st.cur.len() > 0 {
        TokenizerState { tokens: st.tokens.push(st.cur), cur: Seq::empty(), ..st }
    } else {
        st
    }
}

/// One step of the scan: how a single character changes the state.
///
/// A backslash (not itself escaped) arms the escape and is consumed. An
/// escaped quote is a literal `"`. An unescaped quote toggles quoting. An
/// unquoted, unescaped pipe flushes the pending token and emits the pipe
/// token; an unquoted, unescaped space just flushes. Every other character,
/// and any character under an active escape, joins the pending token.
pub open spec fn tokenizer_step(st: TokenizerState, c: char) -> TokenizerState {
    if c == '\\' && !st.escaped {
        TokenizerState { escaped: true, ..st }
    } else if c == '"' && st.escaped {
        TokenizerState { cur: st.cur.push('"'), escaped: false, ..st }
    } else if c == '"' && !st.escaped {
        TokenizerState { in_quotes: !st.in_quotes, ..st }
    } else if c == '|' && !st.in_quotes && !st.escaped {
        let flushed = flush_current(st);
        TokenizerState { tokens: flushed.tokens.push(pipe_token()), ..flushed }
    } else if c == ' ' && !st.in_quotes && !st.escaped {
        flush_current(st)
    } else {
        TokenizerState { cur: st.cur.push(c), escaped: false, ..st }
    }
}

/// The scan state after reading all of `s`, starting from the initial state.
pub open spec fn tokenizer_run(s: Seq<char>) -> TokenizerState
    decreases s.len(),
{
    if s.len() == 0 {
        tokenizer_init()
    } else {
        tokenizer_step(tokenizer_run(s.drop_last()), s.last())
    }
}

/// The token sequence for a whole line: run the scan, then flush whatever
/// token is still pending at end of input. An unterminated quote is not an
/// error: the rest of the line is treated as quoted. A trailing unconsumed
/// backslash is silently dropped.
pub open spec fn spec_tokenize(s: Seq<char>) -> Seq<Seq<char>> {
    flush_current(tokenizer_run(s)).tokens
}

/// Every token in the sequence is non-empty.
pub open spec fn all_tokens_nonempty(ts: Seq<Seq<char>>) -> bool {
    forall|i: int| 0 <= i < ts.len() ==> ts[i].len() > 0
}

/// The scan never emits an empty token: only non-empty pending tokens are
/// flushed, and the pipe token has one character.
proof fn lemma_run_tokens_nonempty(s: Seq<char>)
    ensures
        all_tokens_nonempty(tokenizer_run(s).tokens),
    decreases s.len(),
{
    if s.len() > 0 {
        lemma_run_tokens_nonempty(s.drop_last());
    }
}

/// The tokenizer only produces non-empty tokens.
pub proof fn lemma_tokenize_nonempty(s: Seq<char>)
    ensures
        all_tokens_nonempty(spec_tokenize(s)),
{
    lemma_run_tokens_nonempty(s);
}

/// Splits a raw input line into tokens, exactly as the scanning automaton
/// describes.
pub fn tokenize(input: &str) -> (tokens: Vec<String>)
    ensures
        tokens.deep_view() == spec_tokenize(input@),
{
    let mut tokens: Vec<String> = Vec::new();
    let mut current: String = String::new();
    let mut in_quotes: bool = false;
    let mut escaped: bool = false;
    let len = input.unicode_len();
    let mut i: usize = 0;
    while i < len
        invariant
            len == input@.len(),
            i <= len,
            tokens.deep_view() == tokenizer_run(input@.take(i as int)).tokens,
            current@ == tokenizer_run(input@.take(i as int)).cur,
            in_quotes == tokenizer_run(input@.take(i as int)).in_quotes,
            escaped == tokenizer_run(input@.take(i as int)).escaped,
        decreases len - i,
    {
        let c = input.get_char(i);
        proof {
            assert(input@.take(i + 1).drop_last() =~= input@.take(i as int));
            assert(input@.take(i + 1).last() == input@[i as int]);
        }
        let ghost pre = tokens.deep_view();
        if c == '\\' && !escaped {
            escaped = true;
        } else if c == '"' && escaped {
            current.push('"');
            escaped = false;
        } else if c == '"' && !escaped {
            in_quotes = !in_quotes;
        } else if c == '|' && !in_quotes && !escaped {
            let ghost cur_view = current@;
            if !current.as_str().is_empty() {
                tokens.push(current);
                current = String::new();
                proof {
                    assert(tokens.deep_view() =~= pre.push(cur_view));
                }
            }
            let ghost mid = tokens.deep_view();
            let mut pipe = String::new();
            pipe.push('|');
            tokens.push(pipe);
            proof {
                assert(tokens.deep_view() =~= mid.push(pipe_token()));
            }
        } else if c == ' ' && !in_quotes && !escaped {
            let ghost cur_view = current@;
            if !current.as_str().is_empty() {
                tokens.push(current);
                current = String::new();
                proof {
                    assert(tokens.deep_view() =~= pre.push(cur_view));
                }
            }
        } else {
            current.push(c);
            escaped = false;
        }
        i = i + 1;
    }
    proof {
        assert(input@.take(len as int) =~= input@);
    }
    let ghost pre = tokens.deep_view();
    let ghost cur_view = current@;
    if !current.as_str().is_empty() {
        tokens.push(current);
        proof {
            assert(tokens.deep_view() =~= pre.push(cur_view));
        }
    }
    tokens
}

/// The scan state after reading all of `s`, starting from state `st`.
pub open spec fn tokenizer_run_from(st: TokenizerState, s: Seq<char>) -> TokenizerState
    decreases s.len(),
{
    if s.len() == 0 {
        st
    } else {
        tokenizer_step(tokenizer_run_from(st, s.drop_last()), s.last())
    }
}

/// Running from the initial state is the whole-line scan.
proof fn lemma_run_is_run_from_init(s: Seq<char>)
    ensures
        tokenizer_run(s) == tokenizer_run_from(tokenizer_init(), s),
    decreases s.len(),
{
    if s.len() > 0 {
        lemma_run_is_run_from_init(s.drop_last());
    }
}

/// Scanning a concatenation is scanning the first part, then the second from
/// where the first left off.
proof fn lemma_run_from_append(st: TokenizerState, a: Seq<char>, b: Seq<char>)
    ensures
        tokenizer_run_from(st, a + b) == tokenizer_run_from(tokenizer_run_from(st, a), b),
    decreases b.len(),
{
    if b.len() == 0 {
        assert(a + b =~= a);
    } else {
        lemma_run_from_append(st, a, b.drop_last());
        assert((a + b).drop_last() =~= a + b.drop_last());
        assert((a + b).last() == b.last());
    }
}

/// A character that no scanning rule treats specially: it can only ever join
/// the pending token.
pub open spec fn plain_char(c: char) -> bool {
    c != ' ' && c != '"' && c != '\\' && c != '|'
}

/// Every character of every token is plain.
pub open spec fn all_tokens_plain(ts: Seq<Seq<char>>) -> bool {
    forall|i: int, j: int|
        0 <= i < ts.len() && 0 <= j < ts[i].len() ==> plain_char(#[trigger] ts[i][j])
}

/// Scanning a run of plain characters outside quotes and escapes just
/// appends them to the pending token.
proof fn lemma_run_from_plain(st: TokenizerState, t: Seq<char>)
    requires
        !st.in_quotes,
        !st.escaped,
        forall|j: int| 0 <= j < t.len() ==> plain_char(#[trigger] t[j]),
    ensures
        tokenizer_run_from(st, t) == (TokenizerState { cur: st.cur + t, ..st }),
    decreases t.len(),
{
    if t.len() == 0 {
        assert(st.cur + t =~= st.cur);
        assert(tokenizer_run_from(st, t) == st);
        assert((TokenizerState { cur: st.cur + t, ..st }) == st);
    } else {
        lemma_run_from_plain(st, t.drop_last());
        assert((st.cur + t.drop_last()).push(t.last()) =~= st.cur + t);
    }
}

/// After scanning the join of non-empty all-plain tokens, the state holds
/// all but the last token emitted and the last token pending, with both
/// flags clear.
proof fn lemma_run_of_join(ts: Seq<Seq<char>>)
    requires
        ts.len() > 0,
        all_tokens_nonempty(ts),
        all_tokens_plain(ts),
    ensures
        tokenizer_run_from(tokenizer_init(), crate::text::spec_join(ts)) == (TokenizerState {
            tokens: ts.drop_last(),
            cur: ts.last(),
            in_quotes: false,
            escaped: false,
        }),
    decreases ts.len(),
{
    let init = tokenizer_init();
    if ts.len() == 1 {
        assert(crate::text::spec_join(ts) == ts[0]);
        assert(forall|j: int| 0 <= j < ts[0].len() ==> plain_char(#[trigger] ts[0][j]));
        lemma_run_from_plain(init, ts[0]);
        assert(init.cur + ts[0] =~= ts[0]);
        assert(ts.drop_last() =~= Seq::<Seq<char>>::empty());
    } else {
        let pre = ts.drop_last();
        let last = ts.last();
        assert(all_tokens_nonempty(pre) && all_tokens_plain(pre)) by {
            assert(forall|i: int| 0 <= i < pre.len() ==> pre[i] == ts[i]);
        }
        lemma_run_of_join(pre);
        let joined = crate::text::spec_join(ts);
        assert(joined == crate::text::spec_join(pre) + seq![' '] + last);
        let st1 = tokenizer_run_from(init, crate::text::spec_join(pre));
        lemma_run_from_append(init, crate::text::spec_join(pre) + seq![' '], last);
        lemma_run_from_append(init, crate::text::spec_join(pre), seq![' ']);
        assert((crate::text::spec_join(pre) + seq![' ']) + last =~= joined);
        let st2 = tokenizer_run_from(st1, seq![' ']);
        assert(seq![' '].drop_last() =~= Seq::<char>::empty());
        assert(tokenizer_run_from(st1, seq![' '].drop_last()) == st1);
        assert(seq![' '].last() == ' ');
        assert(st2 == tokenizer_step(st1, ' '));
        assert(pre.last().len() > 0);
        assert(st2.tokens =~= pre);
        assert(forall|j: int| 0 <= j < last.len() ==> plain_char(#[trigger] last[j])) by {
            assert(forall|j: int| 0 <= j < last.len() ==> last[j] == ts[ts.len() - 1][j]);
        }
        lemma_run_from_plain(st2, last);
        assert(st2.cur + last =~= last);
    }
}

/// Re-tokenizing the space-joined tokens of a line gives the same tokens
/// back, provided every token consists of plain characters only — the
/// whitespace-normalized line parses identically. A quoted or escaped
/// special character in the original line (say a quoted space) would be
/// re-read as a separator, so such lines are excluded.
pub proof fn lemma_tokenize_join_roundtrip(s: Seq<char>)
    requires
        !tokenizer_run(s).in_quotes,
        forall|j: int| 0 <= j < s.len() ==> s[j] != '|',
        all_tokens_plain(spec_tokenize(s)),
    ensures
        spec_tokenize(crate::text::spec_join(spec_tokenize(s))) == spec_tokenize(s),
{
    let ts = spec_tokenize(s);
    lemma_tokenize_nonempty(s);
    lemma_run_is_run_from_init(crate::text::spec_join(ts));
    if ts.len() == 0 {
        assert(crate::text::spec_join(ts) =~= Seq::<char>::empty());
        assert(tokenizer_run_from(tokenizer_init(), Seq::<char>::empty()) == tokenizer_init());
    } else {
        lemma_run_of_join(ts);
        assert(flush_current(tokenizer_run(crate::text::spec_join(ts))).tokens
            =~= ts.drop_last().push(ts.last()));
        assert(ts.drop_last().push(ts.last()) =~= ts);
    }
}

/// Groups a token list into pipeline segments, accumulating into `cur`:
/// a pipe token flushes the accumulated segment (if non-empty) and is never
/// itself part of any segment; every other token joins the current segment.
pub open spec fn segment_from(tokens: Seq<Seq<char>>, cur: Seq<Seq<char>>) -> Seq<
    Seq<Seq<char>>,
>
    decreases tokens.len(),
{
    if tokens.len() == 0 {
        if cur.len() > 0 {
            seq![cur]
        } else {
            Seq::empty()
        }
    } else if tokens[0] == pipe_token() {
        if cur.len() > 0 {
            seq![cur] + segment_from(tokens.drop_first(), Seq::empty())
        } else {
            segment_from(tokens.drop_first(), Seq::empty())
        }
    } else {
        segment_from(tokens.drop_first(), cur.push(tokens[0]))
    }
}

/// The pipeline segments of a token list. Leading, trailing or doubled pipes
/// produce no segment for their empty side.
pub open spec fn spec_segment(tokens: Seq<Seq<char>>) -> Seq<Seq<Seq<char>>> {
    segment_from(tokens, Seq::empty())
}

/// Every segment in the sequence holds at least one token.
pub open spec fn all_segments_nonempty(segs: Seq<Seq<Seq<char>>>) -> bool {
    forall|i: int| 0 <= i < segs.len() ==> #[trigger] segs[i].len() > 0
}

/// Every segment the segmenter produces is non-empty: a segment is only
/// emitted when at least one token has accumulated.
pub proof fn lemma_segment_from_nonempty(tokens: Seq<Seq<char>>, cur: Seq<Seq<char>>)
    ensures
        all_segments_nonempty(segment_from(tokens, cur)),
    decreases tokens.len(),
{
    let r = segment_from(tokens, cur);
    if tokens.len() == 0 {
    } else if tokens[0] == pipe_token() {
        lemma_segment_from_nonempty(tokens.drop_first(), Seq::empty());
        let rest = segment_from(tokens.drop_first(), Seq::empty());
        if cur.len() > 0 {
            assert forall|i: int| 0 <= i < r.len() implies r[i].len() > 0 by {
                if i > 0 {
                    assert(r[i] == rest[i - 1]);
                }
            }
        }
    } else {
        lemma_segment_from_nonempty(tokens.drop_first(), cur.push(tokens[0]));
    }
}

/// Every segment of a segmented token list is non-empty.
pub proof fn lemma_segments_nonempty(tokens: Seq<Seq<char>>)
    ensures
        all_segments_nonempty(spec_segment(tokens)),
{
    lemma_segment_from_nonempty(tokens, Seq::empty());
}

/// No pipe token appears in any segment the segmenter produces: the pipe
/// only ever flushes, provided none was accumulated to begin with.
proof fn lemma_segment_from_no_pipe(tokens: Seq<Seq<char>>, cur: Seq<Seq<char>>)
    requires
        forall|j: int| 0 <= j < cur.len() ==> cur[j] != pipe_token(),
    ensures
        forall|i: int, j: int|
            0 <= i < segment_from(tokens, cur).len() && 0 <= j < segment_from(tokens, cur)[i].len()
                ==> #[trigger] segment_from(tokens, cur)[i][j] != pipe_token(),
    decreases tokens.len(),
{
    let r = segment_from(tokens, cur);
    if tokens.len() == 0 {
        if cur.len() > 0 {
            assert forall|i: int, j: int|
                0 <= i < r.len() && 0 <= j < r[i].len() implies #[trigger] r[i][j]
                != pipe_token() by {
                assert(r[i] == cur);
            }
        }
    } else if tokens[0] == pipe_token() {
        lemma_segment_from_no_pipe(tokens.drop_first(), Seq::empty());
        let rest = segment_from(tokens.drop_first(), Seq::empty());
        if cur.len() > 0 {
            assert forall|i: int, j: int|
                0 <= i < r.len() && 0 <= j < r[i].len() implies #[trigger] r[i][j]
                != pipe_token() by {
                if i == 0 {
                    assert(r[i] == cur);
                } else {
                    assert(r[i][j] == rest[i - 1][j]);
                }
            }
        } else {
            assert forall|i: int, j: int|
                0 <= i < r.len() && 0 <= j < r[i].len() implies #[trigger] r[i][j]
                != pipe_token() by {
                assert(r[i][j] == rest[i][j]);
            }
        }
    } else {
        lemma_segment_from_no_pipe(tokens.drop_first(), cur.push(tokens[0]));
        let rest = segment_from(tokens.drop_first(), cur.push(tokens[0]));
        assert forall|i: int, j: int|
            0 <= i < r.len() && 0 <= j < r[i].len() implies #[trigger] r[i][j] != pipe_token() by {
            assert(r[i][j] == rest[i][j]);
        }
    }
}

/// The pipe token is never part of any segment.
pub proof fn lemma_segments_no_pipe(tokens: Seq<Seq<char>>)
    ensures
        forall|i: int, j: int|
            0 <= i < spec_segment(tokens).len() && 0 <= j < spec_segment(tokens)[i].len()
                ==> #[trigger] spec_segment(tokens)[i][j] != pipe_token(),
{
    lemma_segment_from_no_pipe(tokens, Seq::empty());
}

/// Groups tokens into pipeline segments, splitting on the pipe token.
pub fn segment(tokens: &Vec<String>) -> (segments: Vec<Vec<String>>)
    ensures
        segments.deep_view() == spec_segment(tokens.deep_view()),
        forall|i: int| 0 <= i < segments@.len() ==> #[trigger] segments@[i]@.len() > 0,
{
    let ghost full = tokens.deep_view();
    let mut segments: Vec<Vec<String>> = Vec::new();
    let mut cur: Vec<String> = Vec::new();
    proof {
        assert(full.skip(0) =~= full);
        assert(segments.deep_view() =~= Seq::<Seq<Seq<char>>>::empty());
        assert(cur.deep_view() =~= Seq::<Seq<char>>::empty());
        assert(Seq::<Seq<Seq<char>>>::empty() + segment_from(full, Seq::empty())
            =~= segment_from(full, Seq::empty()));
    }
    let mut i: usize = 0;
    while i < tokens.len()
        invariant
            full == tokens.deep_view(),
            full.len() == tokens.len(),
            forall|j: int| 0 <= j < tokens.len() ==> full[j] == tokens[j]@,
            i <= tokens.len(),
            spec_segment(full) == segments.deep_view() + segment_from(
                full.skip(i as int),
                cur.deep_view(),
            ),
            cur.deep_view().len() == cur.len(),
        decreases tokens.len() - i,
    {
        proof {
            assert(full.skip(i as int).drop_first() =~= full.skip(i + 1));
            assert(full.skip(i as int)[0] == full[i as int]);
        }
        let ghost pre_segments = segments.deep_view();
        let ghost pre_cur = cur.deep_view();
        if str_eq_pipe(&tokens[i]) {
            if cur.len() > 0 {
                segments.push(cur);
                cur = Vec::new();
                proof {
                    assert(cur.deep_view() =~= Seq::<Seq<char>>::empty());
                    assert(segments.deep_view() =~= pre_segments.push(pre_cur));
                    assert(pre_segments.push(pre_cur) =~= pre_segments + seq![pre_cur]);
                    assert(segments.deep_view() + segment_from(full.skip(i + 1), Seq::empty())
                        =~= pre_segments + (seq![pre_cur] + segment_from(
                        full.skip(i + 1),
                        Seq::empty(),
                    )));
                }
            } else {
                proof {
                    assert(cur.deep_view() =~= Seq::<Seq<char>>::empty());
                }
            }
        } else {
            let tok = tokens[i].clone();
            cur.push(tok);
            proof {
                assert(cur.deep_view() =~= pre_cur.push(full[i as int]));
            }
        }
        i = i + 1;
    }
    proof {
        assert(full.skip(full.len() as int) =~= Seq::<Seq<char>>::empty());
    }
    let ghost pre_segments = segments.deep_view();
    let ghost pre_cur = cur.deep_view();
    if cur.len() > 0 {
        segments.push(cur);
        proof {
            assert(segments.deep_view() =~= pre_segments.push(pre_cur));
            assert(pre_segments.push(pre_cur) =~= pre_segments + seq![pre_cur]);
        }
    } else {
        proof {
            assert(segments.deep_view() =~= pre_segments + Seq::<Seq<Seq<char>>>::empty());
        }
    }
    proof {
        lemma_segments_nonempty(full);
        assert(forall|i: int|
            0 <= i < segments@.len() ==> #[trigger] segments@[i]@.len() == segments.deep_view()[i].len());
    }
    segments
}

/// Whether this token is the pipe token.
fn str_eq_pipe(tok: &String) -> (r: bool)
    ensures
        r == (tok@ == pipe_token()),
{
    proof {
        reveal_strlit("|");
        assert("|"@ =~= pipe_token());
    }
    crate::text::str_eq(tok.as_str(), "|")
}

} // verus!
