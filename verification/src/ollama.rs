//! Messages exchanged with the model service, and how its errors are shown.
use vstd::prelude::*;
use crate::text::{
    byte_len, char_width_exec, chars_of, is_boundary, lemma_byte_len_monotonic,
    lemma_byte_len_step, string_from_chars,
};

verus! {

/// One chat message as the model service takes it.
#[derive(Debug)]
pub struct ChatMessage {
    pub role: String,
    pub content: String,
    pub images: Option<Vec<String>>,
}

/// The model's answer to a chat request.
#[derive(Debug)]
pub struct ChatResponse {
    pub model: String,
    pub message: ChatMessage,
    pub done: bool,
    pub thinking: Option<String>,
    /// Tokens read from the prompt, when reported.
    pub prompt_eval_count: Option<u64>,
    /// Tokens generated, when reported.
    pub eval_count: Option<u64>,
}

#[derive(Debug)]
pub struct WebSearchRequest {
    pub query: String,
    pub max_results: Option<usize>,
}

#[derive(Debug)]
pub struct WebSearchResult {
    pub title: String,
    pub url: String,
    pub content: String,
}

#[derive(Debug)]
pub struct WebSearchResponse {
    pub results: Vec<WebSearchResult>,
}

/// The longest error body shown, in bytes.
pub const MAX_ERROR_BYTES: usize = 2000;

/// An error body as shown: unchanged up to 2000 bytes, otherwise its first
/// 2000 bytes and an ellipsis.
pub open spec fn error_excerpt(value: Seq<char>, k: int) -> Seq<char> {
    value.take(k).push('…')
}

/// The service's error body, cut to 2000 bytes. Cutting inside a character
/// is refused (the body must have a character boundary at 2000 bytes when
/// it is longer).
pub fn truncate_for_error(value: &str) -> (r: String)
    requires
        byte_len(value@) <= 2000 || is_boundary(value@, 2000),
    ensures
        byte_len(value@) <= 2000 ==> r@ == value@,
        byte_len(value@) > 2000 ==> exists|k: int|
            0 <= k <= value@.len() && byte_len(value@.take(k)) == 2000 && r@ == error_excerpt(
                value@,
                k,
            ),
{
    let v = chars_of(value);
    let n = v.len();
    let mut total: usize = 0;
    let mut i: usize = 0;
    assert(v@.take(0) =~= Seq::<char>::empty());
    while i < n && total < MAX_ERROR_BYTES
        invariant
            i <= n == v@.len(),
            v@ == value@,
            total == byte_len(v@.take(i as int)),
            total <= MAX_ERROR_BYTES + 3,
            i > 0 ==> byte_len(v@.take(i - 1)) < 2000,
        decreases n - i,
    {
        proof {
            lemma_byte_len_step(v@, i as int);
        }
        total = total + char_width_exec(v[i]);
        i += 1;
    }
    if total <= MAX_ERROR_BYTES && i == n {
        assert(v@.take(n as int) =~= v@);
        return string_from_chars(v.as_slice());
    }
    proof {
        // the prefix that ends at byte 2000 is the one reached here
        if total < MAX_ERROR_BYTES {
            assert(i == n);
            assert(v@.take(n as int) =~= v@);
        }
        assert(byte_len(v@) > 2000) by {
            lemma_byte_len_monotonic(v@, i as int, n as int);
            assert(v@.take(n as int) =~= v@);
        }
        let k = choose|k: int| 0 <= k <= v@.len() && byte_len(v@.take(k)) == 2000;
        if k < i {
            lemma_byte_len_monotonic(v@, k, (i - 1) as int);
            lemma_byte_len_step(v@, i - 1);
        } else if k > i {
            lemma_byte_len_monotonic(v@, i as int, k);
        }
        assert(k == i);
        assert(byte_len(value@.take(i as int)) == 2000);
    }
    let mut r: Vec<char> = Vec::new();
    let mut j: usize = 0;
    while j < i
        invariant
            j <= i <= v@.len(),
            r@ == v@.take(j as int),
        decreases i - j,
    {
        r.push(v[j]);
        assert(v@.take(j + 1) =~= v@.take(j as int).push(v@[j as int]));
        j += 1;
    }
    r.push('…');
    let out = string_from_chars(r.as_slice());
    assert(out@ == error_excerpt(value@, i as int));
    out
}

} // verus!
