//! What the agents share: reading JSON out of model answers, building the
//! chat history sent to the model, and the wording of their traces.
pub mod investigation;

use vstd::prelude::*;
use crate::models::{role_label, Message};
use crate::ollama::ChatMessage;
use crate::text::{
    chars_of, copy_str, occurs_at_exec, push_str, split_exec, split_pieces, starts_with,
    string_from_chars, take_chars, take_chars_exec, trim, trim_chars,
};

verus! {

// ---------------------------------------------------------------------------
// JSON in model answers
// ---------------------------------------------------------------------------
#[verifier::external_type_specification]
#[verifier::external_body]
pub struct ExJsonValue(serde_json::Value);

/// `serde_json::from_str::<serde_json::Value>(text)` succeeds.
pub uninterp spec fn json_document(text: Seq<char>) -> bool;

/// The value `serde_json::from_str::<serde_json::Value>(text)` reads, when
/// it succeeds.
pub uninterp spec fn json_document_value(text: Seq<char>) -> serde_json::Value;

/// A JSON value can be read from the start of `text` (what follows it is
/// ignored).
pub uninterp spec fn json_leading_value(text: Seq<char>) -> bool;

/// The value read from the start of `text`, when there is one.
pub uninterp spec fn json_leading_read(text: Seq<char>) -> serde_json::Value;

/// Calls `serde_json::from_str::<serde_json::Value>`. Claimed: it succeeds
/// exactly when `json_document` holds of the text, and the value it reads is
/// `json_document_value` of the text; both are functions of the text alone.
/// What the value holds is not described.
#[verifier::external_body]
fn parse_json_document(text: &str) -> (r: Option<serde_json::Value>)
    ensures
        r is Some <==> json_document(text@),
        r matches Some(v) ==> v == json_document_value(text@),
{
    serde_json::from_str::<serde_json::Value>(text).ok()
}

/// Reads the first item of `serde_json::Deserializer::from_str(text)
/// .into_iter::<serde_json::Value>()`. Claimed: a value comes back exactly
/// when `json_leading_value` holds of the text, and it is
/// `json_leading_read` of the text; both are functions of the text alone.
/// What the value holds is not described.
#[verifier::external_body]
fn parse_json_leading(text: &str) -> (r: Option<serde_json::Value>)
    ensures
        r is Some <==> json_leading_value(text@),
        r matches Some(v) ==> v == json_leading_read(text@),
{
    match serde_json::Deserializer::from_str(text).into_iter::<serde_json::Value>().next() {
        Some(Ok(v)) => Some(v),
        _ => None,
    }
}

/// The fence that delimits Markdown code blocks.
pub open spec fn fence() -> Seq<char> {
    seq!['`', '`', '`']
}

/// The pieces of `s` between fences (`str::split("```")`).
pub open spec fn fence_split(s: Seq<char>) -> Seq<Seq<char>> {
    split_pieces(s, fence(), 0)
}

/// A code block's text without a `json`/`JSON` language tag, trimmed.
pub open spec fn block_body(b: Seq<char>) -> Seq<char> {
    if starts_with(b, "json"@) || starts_with(b, "JSON"@) {
        trim(b.skip(4))
    } else {
        trim(b)
    }
}

/// The bodies of the fenced blocks of `s` (the pieces at odd positions).
pub open spec fn fenced_blocks(s: Seq<char>) -> Seq<Seq<char>> {
    let p = fence_split(s);
    Seq::new(p.len() / 2, |k: int| block_body(p[2 * k + 1]))
}

/// The suffixes of `s` from position `i` on that start with `{` or `[`.
pub open spec fn opening_suffixes(s: Seq<char>, i: nat) -> Seq<Seq<char>>
    decreases s.len() - i,
{
    if i >= s.len() {
        Seq::empty()
    } else if s[i as int] == '{' || s[i as int] == '[' {
        seq![s.skip(i as int)] + opening_suffixes(s, i + 1)
    } else {
        opening_suffixes(s, i + 1)
    }
}

/// A text to read JSON from: a whole document, or a value at its start.
pub struct JsonCandidate {
    pub text: String,
    pub leading: bool,
}

pub open spec fn candidate_view(c: JsonCandidate) -> (Seq<char>, bool) {
    (c.text@, c.leading)
}

/// Where JSON is looked for in a model answer, in order: the whole trimmed
/// answer, the body of each fenced code block, then each position of the
/// (untrimmed) answer that opens an object or an array.
pub open spec fn json_candidates(content: Seq<char>) -> Seq<(Seq<char>, bool)> {
    let t = trim(content);
    let blocks = fenced_blocks(t);
    let leading = opening_suffixes(content, 0);
    seq![(t, false)] + Seq::new(blocks.len(), |k: int| (blocks[k], false)) + Seq::new(
        leading.len(),
        |k: int| (leading[k], true),
    )
}

/// The value a candidate holds, read as its kind says.
pub open spec fn candidate_value(c: (Seq<char>, bool)) -> serde_json::Value {
    if c.1 {
        json_leading_read(c.0)
    } else {
        json_document_value(c.0)
    }
}

/// A character that opens a JSON object or array.
pub open spec fn opens_json(ch: char) -> bool {
    ch == '{' || ch == '['
}

/// The positions from `i` on that open an object or an array, in order.
spec fn opener_positions(s: Seq<char>, i: nat) -> Seq<int>
    decreases s.len() - i,
{
    if i >= s.len() {
        Seq::empty()
    } else if opens_json(s[i as int]) {
        seq![i as int] + opener_positions(s, i + 1)
    } else {
        opener_positions(s, i + 1)
    }
}

proof fn lemma_opener_positions(s: Seq<char>, i: nat)
    ensures
        opener_positions(s, i).len() == opening_suffixes(s, i).len(),
        forall|k: int|
            0 <= k < opener_positions(s, i).len() ==> i <= #[trigger] opener_positions(s, i)[k] < s.len()
                && opens_json(s[opener_positions(s, i)[k]]) && opening_suffixes(s, i)[k] == s.skip(
                opener_positions(s, i)[k],
            ),
        forall|j: int, k: int|
            0 <= j < k < opener_positions(s, i).len() ==> #[trigger] opener_positions(s, i)[j]
                < #[trigger] opener_positions(s, i)[k],
        forall|x: int|
            i <= x < s.len() && opens_json(#[trigger] s[x]) ==> exists|k: int|
                0 <= k < opener_positions(s, i).len() && #[trigger] opener_positions(s, i)[k] == x,
    decreases s.len() - i,
{
    if i < s.len() {
        lemma_opener_positions(s, i + 1);
        let p = opener_positions(s, i + 1);
        let q = opener_positions(s, i);
        if opens_json(s[i as int]) {
            assert forall|x: int| i <= x < s.len() && opens_json(#[trigger] s[x]) implies exists|k: int|
                0 <= k < q.len() && #[trigger] q[k] == x by {
                if x == i {
                    assert(q[0] == x);
                } else {
                    let k = choose|k: int| 0 <= k < p.len() && #[trigger] p[k] == x;
                    assert(q[k + 1] == x);
                }
            }
            assert forall|j: int, k: int| 0 <= j < k < q.len() implies #[trigger] q[j] < #[trigger] q[k] by {
                if j > 0 {
                    assert(q[j] == p[j - 1] && q[k] == p[k - 1]);
                } else {
                    assert(q[k] == p[k - 1]);
                }
            }
            assert forall|k: int| 0 <= k < q.len() implies i <= #[trigger] q[k] < s.len() && opens_json(
                s[q[k]],
            ) && opening_suffixes(s, i)[k] == s.skip(q[k]) by {
                if k > 0 {
                    assert(q[k] == p[k - 1]);
                    assert(opening_suffixes(s, i)[k] == opening_suffixes(s, i + 1)[k - 1]);
                }
            }
        } else {
            assert forall|x: int| i <= x < s.len() && opens_json(#[trigger] s[x]) implies exists|k: int|
                0 <= k < q.len() && #[trigger] q[k] == x by {
                let k = choose|k: int| 0 <= k < p.len() && #[trigger] p[k] == x;
                assert(q[k] == x);
            }
        }
    }
}

/// The texts JSON is looked for in, in order: the trimmed answer, the body
/// of each fenced block, then the rest of the answer from each position that
/// opens an object or an array, from the first such position to the last.
pub proof fn lemma_json_candidate_order(content: Seq<char>)
    ensures
        ({
            let t = trim(content);
            let b = fenced_blocks(t);
            let c = json_candidates(content);
            &&& c.len() >= 1 + b.len()
            &&& c[0] == (t, false)
            &&& forall|j: int| 0 <= j < b.len() ==> c[1 + j] == (#[trigger] b[j], false)
            &&& exists|pos: Seq<int>|
                #![trigger pos.len()]
                {
                    &&& pos.len() == c.len() - 1 - b.len()
                    &&& forall|k: int|
                        0 <= k < pos.len() ==> 0 <= #[trigger] pos[k] < content.len() && opens_json(
                            content[pos[k]],
                        ) && c[1 + b.len() + k] == (content.skip(pos[k]), true)
                    &&& forall|j: int, k: int| 0 <= j < k < pos.len() ==> #[trigger] pos[j] < #[trigger] pos[k]
                    &&& forall|x: int|
                        0 <= x < content.len() && opens_json(#[trigger] content[x]) ==> exists|k: int|
                            0 <= k < pos.len() && #[trigger] pos[k] == x
                }
        }),
{
    lemma_opener_positions(content, 0);
    let pos = opener_positions(content, 0);
    let t = trim(content);
    let b = fenced_blocks(t);
    let c = json_candidates(content);
    let l = opening_suffixes(content, 0);
    assert forall|k: int| 0 <= k < pos.len() implies 0 <= #[trigger] pos[k] < content.len() && opens_json(
        content[pos[k]],
    ) && c[1 + b.len() + k] == (content.skip(pos[k]), true) by {
        assert(c[1 + b.len() + k] == (l[k], true));
    }
    assert(pos.len() == c.len() - 1 - b.len());
}

/// A candidate holds JSON of its kind.
pub open spec fn candidate_accepted(c: (Seq<char>, bool)) -> bool {
    if c.1 {
        json_leading_value(c.0)
    } else {
        json_document(c.0)
    }
}

/// The pieces of `s` between fences.
fn fence_pieces(s: &[char]) -> (r: Vec<Vec<char>>)
    ensures
        r@.len() == fence_split(s@).len(),
        forall|k: int| 0 <= k < r@.len() ==> #[trigger] r@[k]@ == fence_split(s@)[k],
{
    let f: [char; 3] = ['`', '`', '`'];
    assert(f@ =~= fence());
    split_exec(s, f.as_slice())
}

/// The body of a fenced block.
fn block_body_exec(b: &[char]) -> (r: Vec<char>)
    ensures
        r@ == block_body(b@),
{
    let json_tag = chars_of("json");
    let json_upper = chars_of("JSON");
    proof {
        reveal_strlit("json");
        reveal_strlit("JSON");
    }
    let tagged = (b.len() >= 4 && occurs_at_exec(b, json_tag.as_slice(), 0)) || (b.len() >= 4
        && occurs_at_exec(b, json_upper.as_slice(), 0));
    if tagged {
        let mut rest: Vec<char> = Vec::new();
        let mut k: usize = 4;
        let n = b.len();
        while k < n
            invariant
                4 <= k <= n == b@.len(),
                rest@ == b@.subrange(4, k as int),
            decreases n - k,
        {
            rest.push(b[k]);
            assert(b@.subrange(4, k + 1) =~= b@.subrange(4, k as int).push(b@[k as int]));
            k += 1;
        }
        assert(rest@ =~= b@.skip(4));
        trim_chars(rest.as_slice())
    } else {
        trim_chars(b)
    }
}

/// The texts to read JSON from, in the order they are tried.
pub fn llm_json_candidates(content: &str) -> (r: Vec<JsonCandidate>)
    ensures
        r@.len() == json_candidates(content@).len(),
        forall|k: int| 0 <= k < r@.len() ==> candidate_view(#[trigger] r@[k]) == json_candidates(
            content@,
        )[k],
{
    let c = chars_of(content);
    let t = trim_chars(c.as_slice());
    let mut r: Vec<JsonCandidate> = Vec::new();
    r.push(JsonCandidate { text: string_from_chars(t.as_slice()), leading: false });
    let pieces = fence_pieces(t.as_slice());
    let ghost blocks = fenced_blocks(t@);
    let mut k: usize = 0;
    while k < pieces.len() / 2
        invariant
            k <= pieces@.len() / 2,
            pieces@.len() == fence_split(t@).len(),
            forall|j: int| 0 <= j < pieces@.len() ==> #[trigger] pieces@[j]@ == fence_split(t@)[j],
            blocks == fenced_blocks(t@),
            r@.len() == 1 + k,
            candidate_view(r@[0]) == (t@, false),
            forall|j: int| 0 <= j < k ==> candidate_view(#[trigger] r@[1 + j]) == (blocks[j], false),
        decreases pieces@.len() / 2 - k,
    {
        let body = block_body_exec(pieces[2 * k + 1].as_slice());
        r.push(JsonCandidate { text: string_from_chars(body.as_slice()), leading: false });
        k += 1;
    }
    let ghost lead = opening_suffixes(c@, 0);
    let n = c.len();
    let mut i: usize = 0;
    let ghost found: Seq<Seq<char>> = Seq::empty();
    assert(blocks.len() == k);
    while i < n
        invariant
            i <= n == c@.len(),
            c@ == content@,
            r@.len() == 1 + blocks.len() + found.len(),
            candidate_view(r@[0]) == (t@, false),
            forall|j: int| 0 <= j < blocks.len() ==> candidate_view(#[trigger] r@[1 + j]) == (blocks[j], false),
            forall|j: int| 0 <= j < found.len() ==> candidate_view(#[trigger] r@[1 + blocks.len() + j]) == (found[j], true),
            found + opening_suffixes(c@, i as nat) == lead,
        decreases n - i,
    {
        if c[i] == '{' || c[i] == '[' {
            let mut suffix: Vec<char> = Vec::new();
            let mut k2: usize = i;
            while k2 < n
                invariant
                    i <= k2 <= n == c@.len(),
                    suffix@ == c@.subrange(i as int, k2 as int),
                decreases n - k2,
            {
                suffix.push(c[k2]);
                assert(c@.subrange(i as int, k2 + 1) =~= c@.subrange(i as int, k2 as int).push(c@[k2 as int]));
                k2 += 1;
            }
            assert(suffix@ =~= c@.skip(i as int));
            proof {
                found = found.push(c@.skip(i as int));
                assert(found + opening_suffixes(c@, (i + 1) as nat) =~= found.drop_last() + opening_suffixes(c@, i as nat));
            }
            r.push(JsonCandidate { text: string_from_chars(suffix.as_slice()), leading: true });
        }
        i += 1;
    }
    assert(found =~= lead);
    assert(r@.len() == json_candidates(content@).len());
    assert forall|k: int| 0 <= k < r@.len() implies candidate_view(#[trigger] r@[k])
        == json_candidates(content@)[k] by {
        if k == 0 {
        } else if k < 1 + blocks.len() {
            assert(candidate_view(r@[1 + (k - 1)]) == (blocks[k - 1], false));
        } else {
            let j = k - 1 - blocks.len();
            assert(candidate_view(r@[1 + blocks.len() + j]) == (found[j], true));
        }
    }
    r
}

/// Why no JSON could be read from a model answer.
pub struct LlmJsonError {
    /// The first 2000 characters of the answer.
    pub excerpt: String,
}

impl LlmJsonError {
    /// The error as shown to the user.
    pub fn message(&self) -> (m: String)
        ensures
            m@ == "No valid JSON value found in LLM response: "@ + self.excerpt@,
    {
        crate::text::concat("No valid JSON value found in LLM response: ", self.excerpt.as_str())
    }
}

/// The first 2000 characters of a model answer.
pub fn truncate_response(content: &str) -> (r: String)
    ensures
        r@ == take_chars(content@, 2000),
{
    let v = chars_of(content);
    let t = take_chars_exec(v.as_slice(), 2000);
    string_from_chars(t.as_slice())
}

/// Reads a JSON value out of a model answer: the candidates are tried in
/// order and the first that holds JSON of its kind is read.
pub fn parse_llm_json(content: &str) -> (r: Result<serde_json::Value, LlmJsonError>)
    ensures
        r is Ok <==> exists|k: int|
            0 <= k < json_candidates(content@).len() && candidate_accepted(
                #[trigger] json_candidates(content@)[k],
            ),
        r matches Ok(v) ==> exists|k: int|
            0 <= k < json_candidates(content@).len() && candidate_accepted(
                #[trigger] json_candidates(content@)[k],
            ) && (forall|j: int|
                0 <= j < k ==> !candidate_accepted(#[trigger] json_candidates(content@)[j]))
                && v == candidate_value(json_candidates(content@)[k]),
        r matches Err(e) ==> e.excerpt@ == take_chars(content@, 2000),
{
    let cands = llm_json_candidates(content);
    let mut k: usize = 0;
    while k < cands.len()
        invariant
            k <= cands@.len(),
            cands@.len() == json_candidates(content@).len(),
            forall|j: int| 0 <= j < cands@.len() ==> candidate_view(#[trigger] cands@[j]) == json_candidates(content@)[j],
            forall|j: int| 0 <= j < k ==> !candidate_accepted(#[trigger] json_candidates(content@)[j]),
        decreases cands@.len() - k,
    {
        let c = &cands[k];
        let parsed = if c.leading {
            parse_json_leading(c.text.as_str())
        } else {
            parse_json_document(c.text.as_str())
        };
        assert(candidate_view(cands@[k as int]) == json_candidates(content@)[k as int]);
        match parsed {
            Some(v) => {
                assert(candidate_accepted(json_candidates(content@)[k as int]));
                assert(v == candidate_value(json_candidates(content@)[k as int]));
                return Ok(v);
            },
            None => {},
        }
        k += 1;
    }
    Err(LlmJsonError { excerpt: truncate_response(content) })
}


// ---------------------------------------------------------------------------
// Chat history sent to the model
// ---------------------------------------------------------------------------
/// Where the kept part of a conversation of `len` messages starts: the last
/// `keep` messages, or all of them.
pub open spec fn history_start(len: nat, keep: Option<usize>) -> nat {
    match keep {
        Some(n) => if len > n {
            (len - n) as nat
        } else {
            0
        },
        None => 0,
    }
}

/// A chat message with this role and content, and no images.
pub open spec fn chat_is(c: ChatMessage, role: Seq<char>, content: Seq<char>) -> bool {
    c.role@ == role && c.content@ == content && c.images is None
}

/// The chat sent to a model: the system prompt, then the kept messages of
/// the conversation in order, each under its role's name.
pub fn chat_history(system_prompt: &str, messages: &Vec<Message>, keep: Option<usize>) -> (r: Vec<
    ChatMessage,
>)
    ensures
        r@.len() == 1 + messages@.len() - history_start(messages@.len(), keep),
        chat_is(r@[0], "system"@, system_prompt@),
        forall|j: int|
            1 <= j < r@.len() ==> chat_is(
                #[trigger] r@[j],
                role_label(messages@[history_start(messages@.len(), keep) + j - 1].role),
                messages@[history_start(messages@.len(), keep) + j - 1].content@,
            ),
{
    let n = messages.len();
    let start: usize = match keep {
        Some(k) => if n > k {
            n - k
        } else {
            0
        },
        None => 0,
    };
    let mut r: Vec<ChatMessage> = Vec::new();
    r.push(ChatMessage { role: copy_str("system"), content: copy_str(system_prompt), images: None });
    let mut i: usize = start;
    while i < n
        invariant
            start <= i <= n == messages@.len(),
            start == history_start(messages@.len(), keep),
            r@.len() == 1 + i - start,
            chat_is(r@[0], "system"@, system_prompt@),
            forall|j: int|
                1 <= j < r@.len() ==> chat_is(
                    #[trigger] r@[j],
                    role_label(messages@[start + j - 1].role),
                    messages@[start + j - 1].content@,
                ),
        decreases n - i,
    {
        let m = &messages[i];
        r.push(
            ChatMessage { role: copy_str(m.role.label()), content: m.content.clone(), images: None },
        );
        i += 1;
    }
    r
}

/// A trace line stamped with a wall-clock time.
pub fn stamped_trace(clock: &str, message: &str) -> (r: String)
    ensures
        r@ == "["@ + clock@ + "] "@ + message@,
{
    let mut r = copy_str("[");
    push_str(&mut r, clock);
    push_str(&mut r, "] ");
    push_str(&mut r, message);
    r
}

/// A trace line of a named agent, stamped with a wall-clock time.
pub fn agent_trace(clock: &str, agent: &str, message: &str) -> (r: String)
    ensures
        r@ == "["@ + clock@ + "] "@ + agent@ + ": "@ + message@,
{
    let mut r = copy_str("[");
    push_str(&mut r, clock);
    push_str(&mut r, "] ");
    push_str(&mut r, agent);
    push_str(&mut r, ": ");
    push_str(&mut r, message);
    r
}

} // verus!
