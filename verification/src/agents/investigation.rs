//! Decisions of the research agents: which companies to research, the
//! evidence handed to the model, partial results, and the search for a
//! symbol the market-data provider knows.
use vstd::prelude::*;
use crate::models::{strings_view, SourceCitation, StockAction, Timestamp};
use crate::ollama::WebSearchResult;
use crate::market_data::{normalize_ticker, ticker_normal_form, ticker_ok};
use crate::models::PriceHistory;
use crate::text::{chars_of, concat, copy_str, push_str};

verus! {

// ---------------------------------------------------------------------------
// Which companies to research
// ---------------------------------------------------------------------------
/// The most companies researched for one query.
pub const MAX_RESEARCH_TARGETS: usize = 5;

/// `a` sorts before `b` (`String`'s order: by characters, a prefix first).
pub open spec fn lex_lt(a: Seq<char>, b: Seq<char>) -> bool
    decreases a.len(),
{
    if a.len() == 0 {
        b.len() > 0
    } else if b.len() == 0 {
        false
    } else if a[0] != b[0] {
        a[0] < b[0]
    } else {
        lex_lt(a.drop_first(), b.drop_first())
    }
}

pub proof fn lemma_lex_irreflexive(a: Seq<char>)
    ensures
        !lex_lt(a, a),
    decreases a.len(),
{
    if a.len() > 0 {
        lemma_lex_irreflexive(a.drop_first());
    }
}

pub proof fn lemma_lex_transitive(a: Seq<char>, b: Seq<char>, c: Seq<char>)
    requires
        lex_lt(a, b),
        lex_lt(b, c),
    ensures
        lex_lt(a, c),
    decreases a.len(),
{
    if a.len() > 0 && b.len() > 0 && c.len() > 0 && a[0] == b[0] && b[0] == c[0] {
        lemma_lex_transitive(a.drop_first(), b.drop_first(), c.drop_first());
    }
}

pub proof fn lemma_lex_total(a: Seq<char>, b: Seq<char>)
    ensures
        a == b || lex_lt(a, b) || lex_lt(b, a),
    decreases a.len(),
{
    if a.len() > 0 && b.len() > 0 && a[0] == b[0] {
        lemma_lex_total(a.drop_first(), b.drop_first());
        if a.drop_first() == b.drop_first() {
            assert(a =~= seq![a[0]] + a.drop_first());
            assert(b =~= seq![b[0]] + b.drop_first());
        }
    } else if a.len() == 0 && b.len() == 0 {
        assert(a =~= b);
    }
}

pub proof fn lemma_lex_asymmetric(a: Seq<char>, b: Seq<char>)
    requires
        lex_lt(a, b),
    ensures
        !lex_lt(b, a),
{
    if lex_lt(b, a) {
        lemma_lex_transitive(a, b, a);
        lemma_lex_irreflexive(a);
    }
}

/// Whether `a` sorts before `b`.
pub fn lex_less(a: &[char], b: &[char]) -> (r: bool)
    ensures
        r == lex_lt(a@, b@),
{
    let mut i: usize = 0;
    assert(a@.skip(0) =~= a@);
    assert(b@.skip(0) =~= b@);
    while i < a.len() && i < b.len() && a[i] == b[i]
        invariant
            i <= a@.len(),
            i <= b@.len(),
            lex_lt(a@, b@) == lex_lt(a@.skip(i as int), b@.skip(i as int)),
        decreases a@.len() - i,
    {
        assert(a@.skip(i as int).drop_first() =~= a@.skip(i + 1));
        assert(b@.skip(i as int).drop_first() =~= b@.skip(i + 1));
        i += 1;
    }
    assert(a@.skip(i as int).len() == a@.len() - i);
    if i == a.len() {
        i < b.len()
    } else if i == b.len() {
        false
    } else {
        assert(a@.skip(i as int)[0] == a@[i as int]);
        assert(b@.skip(i as int)[0] == b@[i as int]);
        a[i] < b[i]
    }
}

/// Strictly increasing.
pub open spec fn strictly_sorted(s: Seq<Seq<char>>) -> bool {
    forall|i: int, j: int| 0 <= i < j < s.len() ==> lex_lt(s[i], s[j])
}

/// The companies to research: the distinct names of `companies` followed by
/// `discovered`, in `String` order, the first five of them (`extend`,
/// `sort_unstable`, `dedup`, `truncate(5)`).
pub open spec fn targets_of(all: Seq<Seq<char>>, r: Seq<Seq<char>>) -> bool {
    &&& strictly_sorted(r)
    &&& r.len() <= MAX_RESEARCH_TARGETS
    &&& forall|k: int| 0 <= k < r.len() ==> all.contains(#[trigger] r[k])
    &&& forall|k: int|
        0 <= k < all.len() ==> r.contains(#[trigger] all[k]) || (r.len() == MAX_RESEARCH_TARGETS
            && lex_lt(r.last(), all[k]))
}

fn less_at(v: &Vec<String>, j: usize, x: &[char]) -> (r: bool)
    requires
        j < v@.len(),
    ensures
        r == lex_lt(v@[j as int]@, x@),
{
    let e = chars_of(v[j].as_str());
    lex_less(e.as_slice(), x)
}

/// Inserts `x` in the strictly sorted `v` unless it is already there.
fn insert_sorted_unique(v: &mut Vec<String>, x: String)
    requires
        strictly_sorted(strings_view(old(v)@)),
    ensures
        strictly_sorted(strings_view(final(v)@)),
        forall|y: Seq<char>|
            strings_view(final(v)@).contains(y) <==> (strings_view(old(v)@).contains(y) || y
                == x@),
{
    let ghost old_v = strings_view(v@);
    let xc = chars_of(x.as_str());
    let mut j: usize = 0;
    while j < v.len() && less_at(v, j, xc.as_slice())
        invariant
            j <= v@.len(),
            strings_view(v@) == old_v,
            xc@ == x@,
            forall|k: int| 0 <= k < j ==> lex_lt(old_v[k], x@),
        decreases v@.len() - j,
    {
        j += 1;
    }
    if j < v.len() {
        let e = chars_of(v[j].as_str());
        if crate::models::chars_eq(e.as_slice(), xc.as_slice()) {
            assert(old_v[j as int] == x@);
            assert forall|y: Seq<char>| old_v.contains(y) <==> (old_v.contains(y) || y == x@) by {
                if y == x@ {
                    assert(old_v[j as int] == y);
                }
            }
            return;
        }
        proof {
            lemma_lex_total(old_v[j as int], x@);
        }
    }
    let ghost jj = j as int;
    v.insert(j, x);
    proof {
        let nv = strings_view(v@);
        assert(nv =~= old_v.insert(jj, xc@));
        assert forall|a: int, b: int| 0 <= a < b < nv.len() implies lex_lt(nv[a], nv[b]) by {
            if b < jj {
            } else if b == jj {
            } else if a < jj {
                // a is before x, x is before b
                if jj < old_v.len() {
                    lemma_lex_transitive(nv[a], x@, old_v[jj]);
                    if b - 1 > jj {
                        lemma_lex_transitive(nv[a], old_v[jj], old_v[b - 1]);
                    }
                }
            } else if a == jj {
                if b - 1 > jj {
                    lemma_lex_transitive(x@, old_v[jj], old_v[b - 1]);
                }
            } else {
            }
        }
        assert forall|y: Seq<char>| nv.contains(y) <==> (old_v.contains(y) || y == x@) by {
            if nv.contains(y) {
                let k = choose|k: int| 0 <= k < nv.len() && nv[k] == y;
                if k < jj {
                    assert(old_v[k] == y);
                } else if k > jj {
                    assert(old_v[k - 1] == y);
                }
            }
            if old_v.contains(y) {
                let k = choose|k: int| 0 <= k < old_v.len() && old_v[k] == y;
                if k < jj {
                    assert(nv[k] == y);
                } else {
                    assert(nv[k + 1] == y);
                }
            }
            if y == x@ {
                assert(nv[jj] == y);
            }
        }
    }
}

/// The companies to research, from the ones named and the ones discovered.
#[verifier::spinoff_prover]
pub fn research_targets(companies: Vec<String>, discovered: Vec<String>) -> (r: Vec<String>)
    ensures
        targets_of(strings_view(companies@) + strings_view(discovered@), strings_view(r@)),
{
    let ghost all = strings_view(companies@) + strings_view(discovered@);
    let mut all_v = companies;
    let mut disc = discovered;
    all_v.append(&mut disc);
    assert(strings_view(all_v@) =~= all);
    let mut sorted: Vec<String> = Vec::new();
    let n = all_v.len();
    let mut i: usize = 0;
    while i < n
        invariant
            i <= n == all_v@.len(),
            strings_view(all_v@) == all,
            strictly_sorted(strings_view(sorted@)),
            forall|y: Seq<char>|
                strings_view(sorted@).contains(y) <==> all.take(i as int).contains(y),
        decreases n - i,
    {
        let x = all_v[i].clone();
        assert(x@ == all[i as int]) by {
            assert(strings_view(all_v@)[i as int] == all_v@[i as int]@);
        }
        let ghost old_sorted = strings_view(sorted@);
        insert_sorted_unique(&mut sorted, x);
        proof {
            assert forall|y: Seq<char>| all.take(i + 1).contains(y) <==> (all.take(i as int).contains(y)
                || y == all[i as int]) by {
                let t1 = all.take(i + 1);
                let t0 = all.take(i as int);
                if t1.contains(y) {
                    let k = choose|k: int| 0 <= k < t1.len() && #[trigger] t1[k] == y;
                    if k < i {
                        assert(t0[k] == y);
                    }
                }
                if t0.contains(y) {
                    let k = choose|k: int| 0 <= k < t0.len() && #[trigger] t0[k] == y;
                    assert(t1[k] == y);
                }
                if y == all[i as int] {
                    assert(all.take(i + 1)[i as int] == y);
                }
            }
            assert(strings_view(all_v@)[i as int] == all[i as int]);
            assert forall|y: Seq<char>| strings_view(sorted@).contains(y) <==> all.take(
                i + 1,
            ).contains(y) by {
                assert(strings_view(sorted@).contains(y) <==> (old_sorted.contains(y) || y
                    == all[i as int]));
            }
        }
        i += 1;
    }
    assert(all.take(n as int) =~= all);
    let ghost full = strings_view(sorted@);
    sorted.truncate(MAX_RESEARCH_TARGETS);
    proof {
        let r = strings_view(sorted@);
        assert(r =~= if full.len() <= 5 { full } else { full.take(5) });
        assert forall|k: int| 0 <= k < r.len() implies all.contains(#[trigger] r[k]) by {
            assert(full.contains(full[k]));
        }
        assert forall|k: int| 0 <= k < all.len() implies r.contains(#[trigger] all[k]) || (r.len()
            == MAX_RESEARCH_TARGETS && lex_lt(r.last(), all[k])) by {
            assert(all.contains(all[k]));
            assert(full.contains(all[k]));
            let m = choose|m: int| 0 <= m < full.len() && full[m] == all[k];
            if m < r.len() {
                assert(r[m] == all[k]);
            } else {
                assert(lex_lt(full[4], full[m]));
            }
        }
    }
    sorted
}


// ---------------------------------------------------------------------------
// Evidence handed to the model
// ---------------------------------------------------------------------------
/// The parts, one after the other.
pub open spec fn concat_all(parts: Seq<Seq<char>>) -> Seq<char>
    decreases parts.len(),
{
    if parts.len() == 0 {
        Seq::empty()
    } else {
        concat_all(parts.drop_last()) + parts.last()
    }
}

/// The parts with `sep` between each two (`slice::join`).
pub open spec fn join_with(parts: Seq<Seq<char>>, sep: Seq<char>) -> Seq<char>
    decreases parts.len(),
{
    if parts.len() == 0 {
        Seq::empty()
    } else if parts.len() == 1 {
        parts[0]
    } else {
        join_with(parts.drop_last(), sep) + sep + parts.last()
    }
}

/// At most `n` first search results.
pub open spec fn first_results(s: Seq<WebSearchResult>, n: nat) -> Seq<WebSearchResult> {
    if s.len() <= n {
        s
    } else {
        s.take(n as int)
    }
}

/// How a search result is quoted as news evidence.
pub open spec fn news_entry(r: WebSearchResult) -> Seq<char> {
    "Source URL: "@ + r.url@ + "\nSource title: "@ + r.title@ + "\nSource excerpt: "@ + r.content@
        + "\n\n"@
}

/// How a search result is quoted when looking for candidate companies.
pub open spec fn discovery_entry(r: WebSearchResult) -> Seq<char> {
    "- "@ + r.title@ + ": "@ + r.content@
}

/// How a search result is quoted when looking for a company's symbol.
pub open spec fn symbol_entry(r: WebSearchResult) -> Seq<char> {
    "Title: "@ + r.title@ + "\nURL: "@ + r.url@ + "\nExcerpt: "@ + r.content@
}

fn news_entry_exec(r: &WebSearchResult) -> (t: String)
    ensures
        t@ == news_entry(*r),
{
    let mut t = copy_str("Source URL: ");
    push_str(&mut t, r.url.as_str());
    push_str(&mut t, "\nSource title: ");
    push_str(&mut t, r.title.as_str());
    push_str(&mut t, "\nSource excerpt: ");
    push_str(&mut t, r.content.as_str());
    push_str(&mut t, "\n\n");
    t
}

fn discovery_entry_exec(r: &WebSearchResult) -> (t: String)
    ensures
        t@ == discovery_entry(*r),
{
    let mut t = copy_str("- ");
    push_str(&mut t, r.title.as_str());
    push_str(&mut t, ": ");
    push_str(&mut t, r.content.as_str());
    t
}

fn symbol_entry_exec(r: &WebSearchResult) -> (t: String)
    ensures
        t@ == symbol_entry(*r),
{
    let mut t = copy_str("Title: ");
    push_str(&mut t, r.title.as_str());
    push_str(&mut t, "\nURL: ");
    push_str(&mut t, r.url.as_str());
    push_str(&mut t, "\nExcerpt: ");
    push_str(&mut t, r.content.as_str());
    t
}

/// The news evidence of the first three search results, and the sources
/// they are cited as.
pub fn news_evidence(results: &Vec<WebSearchResult>, retrieved_at: Timestamp) -> (r: (
    Vec<SourceCitation>,
    String,
))
    ensures
        r.0@.len() == first_results(results@, 3).len(),
        forall|k: int|
            0 <= k < r.0@.len() ==> (#[trigger] r.0@[k]).title@ == results@[k].title@ && r.0@[k].url@
                == results@[k].url@ && r.0@[k].retrieved_at == retrieved_at,
        r.1@ == concat_all(
            Seq::new(first_results(results@, 3).len(), |k: int| news_entry(results@[k])),
        ),
{
    let n: usize = if results.len() <= 3 {
        results.len()
    } else {
        3
    };
    let mut sources: Vec<SourceCitation> = Vec::new();
    let mut text = String::new();
    let mut i: usize = 0;
    while i < n
        invariant
            i <= n <= results@.len(),
            n == first_results(results@, 3).len(),
            sources@.len() == i,
            forall|k: int|
                0 <= k < i ==> (#[trigger] sources@[k]).title@ == results@[k].title@
                    && sources@[k].url@ == results@[k].url@ && sources@[k].retrieved_at
                    == retrieved_at,
            text@ == concat_all(Seq::new(i as nat, |k: int| news_entry(results@[k]))),
        decreases n - i,
    {
        let item = &results[i];
        sources.push(
            SourceCitation { title: item.title.clone(), url: item.url.clone(), retrieved_at },
        );
        let entry = news_entry_exec(item);
        push_str(&mut text, entry.as_str());
        proof {
            let next = Seq::new((i + 1) as nat, |k: int| news_entry(results@[k]));
            assert(next.drop_last() =~= Seq::new(i as nat, |k: int| news_entry(results@[k])));
        }
        i += 1;
    }
    (sources, text)
}

proof fn lemma_strings_view_push(v: Seq<String>, x: String)
    ensures
        crate::models::strings_view(v.push(x)) =~= crate::models::strings_view(v).push(x@),
{
}

/// The parts, joined by `sep`.
fn join_strings(parts: &Vec<String>, sep: &str) -> (r: String)
    ensures
        r@ == join_with(crate::models::strings_view(parts@), sep@),
{
    let ghost views = crate::models::strings_view(parts@);
    let mut r = String::new();
    let mut i: usize = 0;
    while i < parts.len()
        invariant
            i <= parts@.len(),
            views == crate::models::strings_view(parts@),
            r@ == join_with(views.take(i as int), sep@),
        decreases parts@.len() - i,
    {
        if i > 0 {
            push_str(&mut r, sep);
        }
        push_str(&mut r, parts[i].as_str());
        proof {
            assert(views.take(i + 1).drop_last() =~= views.take(i as int));
            if i == 0 {
                assert(views.take(1)[0] == views[0]);
            }
        }
        i += 1;
    }
    assert(views.take(parts@.len() as int) =~= views);
    r
}

/// The evidence for discovering companies: the first five results, one per
/// line.
pub fn discovery_evidence(results: &Vec<WebSearchResult>) -> (r: String)
    ensures
        r@ == join_with(
            Seq::new(first_results(results@, 5).len(), |k: int| discovery_entry(results@[k])),
            "\n"@,
        ),
{
    let n: usize = if results.len() <= 5 {
        results.len()
    } else {
        5
    };
    let mut parts: Vec<String> = Vec::new();
    let mut i: usize = 0;
    while i < n
        invariant
            i <= n <= results@.len(),
            crate::models::strings_view(parts@) =~= Seq::new(
                i as nat,
                |k: int| discovery_entry(results@[k]),
            ),
        decreases n - i,
    {
        let e = discovery_entry_exec(&results[i]);
        let ghost prev = parts@;
        parts.push(e);
        proof {
            lemma_strings_view_push(prev, e);
        }
        i += 1;
    }
    join_strings(&parts, "\n")
}

/// The evidence for finding a company's symbol: the first five results,
/// separated by blank lines.
pub fn symbol_evidence(results: &Vec<WebSearchResult>) -> (r: String)
    ensures
        r@ == join_with(
            Seq::new(first_results(results@, 5).len(), |k: int| symbol_entry(results@[k])),
            "\n\n"@,
        ),
{
    let n: usize = if results.len() <= 5 {
        results.len()
    } else {
        5
    };
    let mut parts: Vec<String> = Vec::new();
    let mut i: usize = 0;
    while i < n
        invariant
            i <= n <= results@.len(),
            crate::models::strings_view(parts@) =~= Seq::new(
                i as nat,
                |k: int| symbol_entry(results@[k]),
            ),
        decreases n - i,
    {
        let e = symbol_entry_exec(&results[i]);
        let ghost prev = parts@;
        parts.push(e);
        proof {
            lemma_strings_view_push(prev, e);
        }
        i += 1;
    }
    join_strings(&parts, "\n\n")
}

// ---------------------------------------------------------------------------
// Partial research results
// ---------------------------------------------------------------------------
/// The researched companies, in the order their research finished.
pub open spec fn successes(s: Seq<Result<StockAction, String>>) -> Seq<StockAction>
    decreases s.len(),
{
    if s.len() == 0 {
        Seq::empty()
    } else {
        match s.last() {
            Ok(a) => successes(s.drop_last()).push(a),
            Err(_) => successes(s.drop_last()),
        }
    }
}

/// The trace for each company whose research failed.
pub open spec fn failure_traces(s: Seq<Result<StockAction, String>>) -> Seq<Seq<char>>
    decreases s.len(),
{
    if s.len() == 0 {
        Seq::empty()
    } else {
        match s.last() {
            Ok(_) => failure_traces(s.drop_last()),
            Err(e) => failure_traces(s.drop_last()).push(
                "⚠️ Investigación parcial: no se pudo procesar una empresa: "@ + e@,
            ),
        }
    }
}

/// The positions of the `Ok` outcomes, in order.
spec fn ok_positions(s: Seq<Result<StockAction, String>>) -> Seq<int>
    decreases s.len(),
{
    if s.len() == 0 {
        Seq::empty()
    } else if s.last() is Ok {
        ok_positions(s.drop_last()).push(s.len() - 1)
    } else {
        ok_positions(s.drop_last())
    }
}

proof fn lemma_ok_positions(s: Seq<Result<StockAction, String>>)
    ensures
        ok_positions(s).len() == successes(s).len(),
        forall|k: int|
            0 <= k < ok_positions(s).len() ==> 0 <= #[trigger] ok_positions(s)[k] < s.len() && s[ok_positions(s)[k]]
                == Ok::<StockAction, String>(successes(s)[k]),
        forall|j: int, k: int|
            0 <= j < k < ok_positions(s).len() ==> #[trigger] ok_positions(s)[j] < #[trigger] ok_positions(s)[k],
        forall|i: int|
            0 <= i < s.len() && (#[trigger] s[i]) is Ok ==> exists|k: int|
                0 <= k < ok_positions(s).len() && #[trigger] ok_positions(s)[k] == i,
    decreases s.len(),
{
    if s.len() > 0 {
        let t = s.drop_last();
        lemma_ok_positions(t);
        let p = ok_positions(t);
        assert forall|i: int| 0 <= i < s.len() && (#[trigger] s[i]) is Ok implies exists|k: int|
            0 <= k < ok_positions(s).len() && #[trigger] ok_positions(s)[k] == i by {
            if i < t.len() {
                assert(t[i] == s[i]);
                let k = choose|k: int| 0 <= k < p.len() && #[trigger] p[k] == i;
                assert(ok_positions(s)[k] == i);
            } else {
                assert(ok_positions(s)[p.len() as int] == i);
            }
        }
        assert forall|k: int| 0 <= k < ok_positions(s).len() implies 0 <= #[trigger] ok_positions(s)[k] < s.len() && s[ok_positions(s)[k]]
            == Ok::<StockAction, String>(successes(s)[k]) by {
            if k < p.len() {
                assert(t[p[k]] == s[p[k]]);
            }
        }
    }
}

/// The research kept is every successful outcome, in order: each result is
/// the action of an `Ok` outcome, at increasing positions, and every `Ok`
/// outcome gives one of them.
pub proof fn lemma_research_keeps_every_success(s: Seq<Result<StockAction, String>>)
    ensures
        exists|pos: Seq<int>|
            #![trigger pos.len()]
            {
                &&& pos.len() == successes(s).len()
                &&& forall|k: int|
                    0 <= k < pos.len() ==> 0 <= #[trigger] pos[k] < s.len() && s[pos[k]] == Ok::<
                        StockAction,
                        String,
                    >(successes(s)[k])
                &&& forall|j: int, k: int| 0 <= j < k < pos.len() ==> #[trigger] pos[j] < #[trigger] pos[k]
                &&& forall|i: int|
                    0 <= i < s.len() && (#[trigger] s[i]) is Ok ==> exists|k: int|
                        0 <= k < pos.len() && #[trigger] pos[k] == i
            },
{
    lemma_ok_positions(s);
    let pos = ok_positions(s);
    assert(pos.len() == successes(s).len());
}

/// Keeps what research produced; fails only when there were companies to
/// research and none could be researched.
pub fn gather_research(outcomes: Vec<Result<StockAction, String>>, target_count: usize) -> (r: (
    Result<Vec<StockAction>, String>,
    Vec<String>,
))
    ensures
        crate::models::strings_view(r.1@) == failure_traces(outcomes@),
        if target_count > 0 && successes(outcomes@).len() == 0 {
            r.0 matches Err(m) && m@ == "No se pudo obtener evidencia para ninguna empresa objetivo."@
        } else {
            r.0 matches Ok(v) && v@ == successes(outcomes@)
        },
{
    let ghost all = outcomes@;
    let mut results: Vec<StockAction> = Vec::new();
    let mut traces: Vec<String> = Vec::new();
    let mut rest = outcomes;
    let mut taken: Vec<Result<StockAction, String>> = Vec::new();
    // take from the back, then restore the order
    while rest.len() > 0
        invariant
            rest@ + taken@.reverse() == all,
        decreases rest@.len(),
    {
        let o = rest.pop().unwrap();
        taken.push(o);
        proof {
            assert(rest@ + taken@.reverse() =~= all);
        }
    }
    let ghost done: Seq<Result<StockAction, String>> = Seq::empty();
    while taken.len() > 0
        invariant
            done + taken@.reverse() == all,
            results@ == successes(done),
            crate::models::strings_view(traces@) =~= failure_traces(done),
        decreases taken@.len(),
    {
        let o = taken.pop().unwrap();
        proof {
            let prev = done;
            done = done.push(o);
            assert(done + taken@.reverse() =~= all);
            assert(done.drop_last() =~= prev);
            assert(done.last() == o);
        }
        match o {
            Ok(a) => {
                results.push(a);
            },
            Err(e) => {
                traces.push(concat("⚠️ Investigación parcial: no se pudo procesar una empresa: ", e.as_str()));
            },
        }
    }
    assert(done =~= all);
    if target_count > 0 && results.len() == 0 {
        (Err(copy_str("No se pudo obtener evidencia para ninguna empresa objetivo.")), traces)
    } else {
        (Ok(results), traces)
    }
}


// ---------------------------------------------------------------------------
// Verified prices for one researched company
// ---------------------------------------------------------------------------
/// Where the search for a company's prices stands.
#[derive(Clone, Copy, Debug, PartialEq, Eq, Structural)]
pub enum LookupPhase {
    /// Fetching prices for the company's own (normalised) ticker.
    Primary,
    /// Asking for the company's official symbols.
    Resolving,
    /// Fetching prices for the candidate symbol at `next - 1`.
    Trying,
    Done,
}

/// The outside work the search asks for next.
pub enum LookupStep {
    /// Fetch the price history of this symbol.
    Fetch(String),
    /// Ask which symbols the company trades under.
    Resolve { company: String, ticker: String },
    /// The search is over; take the action with `into_action`.
    Done,
}

/// A candidate symbol is tried when it normalises to an acceptable ticker
/// other than the company's own.
pub open spec fn candidate_usable(c: Seq<char>, ticker: Seq<char>) -> bool {
    ticker_ok(ticker_normal_form(c)) && ticker_normal_form(c) != ticker
}

/// The first usable candidate at or after `from`.
pub open spec fn next_candidate(cands: Seq<Seq<char>>, from: nat, ticker: Seq<char>) -> Option<nat>
    decreases cands.len() - from,
{
    if from >= cands.len() {
        None
    } else if candidate_usable(cands[from as int], ticker) {
        Some(from)
    } else {
        next_candidate(cands, from + 1, ticker)
    }
}

/// `a` is the research result `b` under symbol `ticker` with verified
/// prices `p`; everything else is kept.
pub open spec fn priced(a: StockAction, b: StockAction, ticker: String, p: PriceHistory) -> bool {
    a == StockAction { ticker, prices: Some(p), ..b }
}

/// `a` is `b` with one more risk, the last, saying that the prices could not
/// be verified because of `why`; everything else is kept.
pub open spec fn gave_up(a: StockAction, b: StockAction, why: Seq<char>) -> bool {
    &&& a == StockAction { risks: a.risks, ..b }
    &&& a.risks@.len() == b.risks@.len() + 1
    &&& a.risks@.drop_last() == b.risks@
    &&& a.risks@.last()@ == "No se pudieron verificar los precios de mercado: "@ + why
}

/// The search for verified prices of one research result.
pub struct PriceLookup {
    phase: LookupPhase,
    action: StockAction,
    ticker: String,
    initial_error: String,
    candidates: Vec<String>,
    next: usize,
}

impl PriceLookup {
    pub closed spec fn phase_spec(&self) -> LookupPhase {
        self.phase
    }

    /// The research result as it stands.
    pub closed spec fn action_spec(&self) -> StockAction {
        self.action
    }

    /// The company's own ticker, normalised.
    pub closed spec fn ticker_spec(&self) -> Seq<char> {
        self.ticker@
    }

    /// The symbols offered for the company, as given.
    pub closed spec fn candidates_spec(&self) -> Seq<Seq<char>> {
        strings_view(self.candidates@)
    }

    /// How many candidates have been considered.
    pub closed spec fn next_spec(&self) -> nat {
        self.next as nat
    }

    /// The failure of the first fetch.
    pub closed spec fn initial_error_spec(&self) -> Seq<char> {
        self.initial_error@
    }

    pub closed spec fn wf(&self) -> bool {
        &&& self.next <= self.candidates@.len()
        &&& self.phase == LookupPhase::Trying ==> self.next > 0 && ticker_ok(
            ticker_normal_form(self.candidates@[self.next - 1]@),
        )
    }

    /// The phase.
    pub fn phase(&self) -> (p: LookupPhase)
        ensures
            p == self.phase_spec(),
    {
        self.phase
    }

    /// The research result, with whatever the search added.
    pub fn into_action(self) -> (a: StockAction)
        ensures
            a == self.action_spec(),
    {
        self.action
    }

    fn push_risk(&mut self, risk: String)
        ensures
            final(self).action.risks@ == old(self).action.risks@.push(risk),
            final(self).action == (StockAction { risks: final(self).action.risks, ..old(self).action }),
            final(self).phase == old(self).phase,
            final(self).ticker == old(self).ticker,
            final(self).candidates == old(self).candidates,
            final(self).next == old(self).next,
            final(self).initial_error == old(self).initial_error,
    {
        self.action.risks.push(risk);
    }

    /// Starts the search: the action's ticker is normalised, or the search
    /// ends at once with a risk saying why it could not be.
    pub fn start(action: StockAction) -> (r: (PriceLookup, Vec<String>, LookupStep))
        ensures
            r.0.wf(),
            r.0.action_spec().company == action.company,
            r.0.action_spec().prices == action.prices,
            if ticker_ok(ticker_normal_form(action.ticker@)) {
                &&& r.0.action_spec() == (StockAction { ticker: r.0.action_spec().ticker, ..action })
                &&& r.0.phase_spec() == LookupPhase::Primary
                &&& r.0.ticker_spec() == ticker_normal_form(action.ticker@)
                &&& r.0.action_spec().ticker@ == ticker_normal_form(action.ticker@)
                &&& r.0.action_spec().risks == action.risks
                &&& strings_view(r.1@) == seq![
                    "Obteniendo datos de mercado verificados para "@ + ticker_normal_form(
                        action.ticker@,
                    ),
                ]
                &&& r.2 matches LookupStep::Fetch(t) && t@ == ticker_normal_form(action.ticker@)
            } else {
                let why = "Invalid ticker symbol: "@ + action.ticker@;
                &&& r.0.action_spec() == (StockAction { risks: r.0.action_spec().risks, ..action })
                &&& r.0.phase_spec() == LookupPhase::Done
                &&& r.0.action_spec().ticker == action.ticker
                &&& r.0.action_spec().risks@.len() == action.risks@.len() + 1
                &&& r.0.action_spec().risks@.drop_last() == action.risks@
                &&& r.0.action_spec().risks@.last()@ == "No se pudo validar el ticker: "@ + why
                &&& strings_view(r.1@) == seq!["⚠️ Ticker no válido en resultado parcial: "@ + why]
                &&& r.2 is Done
            },
    {
        let mut traces: Vec<String> = Vec::new();
        match normalize_ticker(action.ticker.as_str()) {
            Err(e) => {
                let why = e.message();
                traces.push(concat("⚠️ Ticker no válido en resultado parcial: ", why.as_str()));
                let mut a = action;
                a.risks.push(concat("No se pudo validar el ticker: ", why.as_str()));
                let lookup = PriceLookup {
                    phase: LookupPhase::Done,
                    action: a,
                    ticker: String::new(),
                    initial_error: String::new(),
                    candidates: Vec::new(),
                    next: 0,
                };
                assert(lookup.action.risks@.drop_last() =~= action.risks@);
                assert(strings_view(traces@) =~= seq![
                    "⚠️ Ticker no válido en resultado parcial: "@ + why@,
                ]);
                (lookup, traces, LookupStep::Done)
            },
            Ok(t) => {
                traces.push(concat("Obteniendo datos de mercado verificados para ", t.as_str()));
                let mut a = action;
                a.ticker = t.clone();
                let step = LookupStep::Fetch(t.clone());
                let lookup = PriceLookup {
                    phase: LookupPhase::Primary,
                    action: a,
                    ticker: t,
                    initial_error: String::new(),
                    candidates: Vec::new(),
                    next: 0,
                };
                assert(strings_view(traces@) =~= seq![
                    "Obteniendo datos de mercado verificados para "@ + ticker_normal_form(
                        action.ticker@,
                    ),
                ]);
                (lookup, traces, step)
            },
        }
    }

    /// Gives up: the action keeps no prices and says why.
    fn give_up(&mut self) -> (step: LookupStep)
        requires
            old(self).next <= old(self).candidates@.len(),
        ensures
            final(self).wf(),
            final(self).phase == LookupPhase::Done,
            gave_up(final(self).action, old(self).action, old(self).initial_error@),
            final(self).ticker == old(self).ticker,
            final(self).candidates == old(self).candidates,
            final(self).next == old(self).next,
            step is Done,
    {
        let risk = concat(
            "No se pudieron verificar los precios de mercado: ",
            self.initial_error.as_str(),
        );
        let ghost before = self.action.risks@;
        self.push_risk(risk);
        assert(self.action.risks@.drop_last() =~= before);
        self.phase = LookupPhase::Done;
        LookupStep::Done
    }

    /// Moves to the next usable candidate, or gives up when none is left.
    fn advance(&mut self) -> (r: (Vec<String>, LookupStep))
        requires
            old(self).wf(),
        ensures
            final(self).wf(),
            final(self).ticker == old(self).ticker,
            final(self).candidates == old(self).candidates,
            match next_candidate(
                strings_view(old(self).candidates@),
                old(self).next as nat,
                old(self).ticker@,
            ) {
                Some(k) => {
                    let c = ticker_normal_form(old(self).candidates@[k as int]@);
                    &&& final(self).phase == LookupPhase::Trying
                    &&& final(self).next == k + 1
                    &&& final(self).action == old(self).action
                    &&& strings_view(r.0@) == seq![
                        "Probando símbolo alternativo resuelto para "@ + old(self).action.company@
                            + ": "@ + c,
                    ]
                    &&& r.1 matches LookupStep::Fetch(t) && t@ == c
                },
                None => {
                    &&& final(self).phase == LookupPhase::Done
                    &&& gave_up(final(self).action, old(self).action, old(self).initial_error@)
                    &&& r.0@.len() == 0
                    &&& r.1 is Done
                },
            },
    {
        let ghost cands = strings_view(self.candidates@);
        let ghost start = self.next as nat;
        let tc = chars_of(self.ticker.as_str());
        while self.next < self.candidates.len()
            invariant
                self.next <= self.candidates@.len(),
                strings_view(self.candidates@) == cands,
                start <= self.next,
                tc@ == self.ticker@,
                next_candidate(cands, start, self.ticker@) == next_candidate(
                    cands,
                    self.next as nat,
                    self.ticker@,
                ),
                self.phase == old(self).phase,
                self.action == old(self).action,
                self.ticker == old(self).ticker,
                self.candidates == old(self).candidates,
                self.initial_error == old(self).initial_error,
                cands == strings_view(old(self).candidates@),
                start == old(self).next as nat,
            decreases self.candidates@.len() - self.next,
        {
            let k = self.next;
            assert(cands[k as int] == self.candidates@[k as int]@);
            match normalize_ticker(self.candidates[k].as_str()) {
                Ok(c) => {
                    let cc = chars_of(c.as_str());
                    if !crate::models::chars_eq(cc.as_slice(), tc.as_slice()) {
                        let mut traces: Vec<String> = Vec::new();
                        let mut t = copy_str("Probando símbolo alternativo resuelto para ");
                        push_str(&mut t, self.action.company.as_str());
                        push_str(&mut t, ": ");
                        push_str(&mut t, c.as_str());
                        traces.push(t);
                        self.next = k + 1;
                        self.phase = LookupPhase::Trying;
                        assert(strings_view(traces@) =~= seq![
                            "Probando símbolo alternativo resuelto para "@ + old(self).action.company@ + ": "@ + c@,
                        ]);
                        assert(candidate_usable(cands[k as int], tc@));
                        assert(next_candidate(cands, k as nat, tc@) == Some(k as nat));
                        assert(cands == strings_view(old(self).candidates@));
                        assert(start == old(self).next as nat);
                        assert(tc@ == old(self).ticker@);
                        assert(next_candidate(cands, start, tc@) == Some(k as nat));
                        return (traces, LookupStep::Fetch(c));
                    }
                },
                Err(_) => {},
            }
            self.next = k + 1;
        }
        let traces: Vec<String> = Vec::new();
        let step = self.give_up();
        (traces, step)
    }

    /// Takes in the result of a price fetch.
    pub fn on_fetch(&mut self, result: Result<PriceHistory, String>) -> (r: (Vec<String>, LookupStep))
        requires
            old(self).wf(),
            old(self).phase_spec() == LookupPhase::Primary || old(self).phase_spec()
                == LookupPhase::Trying,
        ensures
            final(self).wf(),
            final(self).action_spec().company == old(self).action_spec().company,
            match result {
                Ok(p) => {
                    &&& final(self).phase_spec() == LookupPhase::Done
                    &&& priced(
                        final(self).action_spec(),
                        old(self).action_spec(),
                        final(self).action_spec().ticker,
                        p,
                    )
                    &&& (old(self).phase_spec() == LookupPhase::Primary ==> final(self).action_spec().ticker == old(self).action_spec().ticker)
                    &&& (old(self).phase_spec() == LookupPhase::Trying ==> final(self).action_spec().ticker@ == ticker_normal_form(
                        old(self).candidates_spec()[old(self).next_spec() - 1],
                    ))
                    &&& r.0@.len() == 0
                    &&& r.1 is Done
                },
                Err(e) => if old(self).phase_spec() == LookupPhase::Primary {
                    &&& final(self).phase_spec() == LookupPhase::Resolving
                    &&& final(self).initial_error_spec() == e@
                    &&& final(self).action_spec() == old(self).action_spec()
                    &&& final(self).ticker_spec() == old(self).ticker_spec()
                    &&& strings_view(r.0@) == seq![
                        "⚠️ Datos de mercado parciales para "@ + old(self).ticker_spec() + ": "@
                            + e@,
                    ]
                    &&& r.1 matches LookupStep::Resolve { company, ticker } && company@ == old(self).action_spec().company@ && ticker@ == old(self).ticker_spec()
                } else {
                    &&& final(self).ticker_spec() == old(self).ticker_spec()
                    &&& final(self).candidates_spec() == old(self).candidates_spec()
                    &&& match next_candidate(
                        old(self).candidates_spec(),
                        old(self).next_spec(),
                        old(self).ticker_spec(),
                    ) {
                        Some(k) => final(self).phase_spec() == LookupPhase::Trying && final(self).next_spec() == k + 1
                            && final(self).action_spec() == old(self).action_spec() && (r.1 matches LookupStep::Fetch(t) && t@
                            == ticker_normal_form(old(self).candidates_spec()[k as int])),
                        None => final(self).phase_spec() == LookupPhase::Done && r.1 is Done
                            && r.0@.len() == 0 && gave_up(
                            final(self).action_spec(),
                            old(self).action_spec(),
                            old(self).initial_error_spec(),
                        ),
                    }
                },
            },
    {
        match result {
            Ok(p) => {
                if self.phase == LookupPhase::Trying {
                    let k = self.next - 1;
                    match normalize_ticker(self.candidates[k].as_str()) {
                        Ok(c) => {
                            self.action.ticker = c;
                        },
                        Err(_) => {},
                    }
                }
                self.action.prices = Some(p);
                self.phase = LookupPhase::Done;
                (Vec::new(), LookupStep::Done)
            },
            Err(e) => {
                if self.phase == LookupPhase::Primary {
                    let mut traces: Vec<String> = Vec::new();
                    let mut t = copy_str("⚠️ Datos de mercado parciales para ");
                    push_str(&mut t, self.ticker.as_str());
                    push_str(&mut t, ": ");
                    push_str(&mut t, e.as_str());
                    traces.push(t);
                    self.initial_error = e;
                    self.phase = LookupPhase::Resolving;
                    assert(strings_view(traces@) =~= seq![
                        "⚠️ Datos de mercado parciales para "@ + old(self).ticker@ + ": "@ + e@,
                    ]);
                    let step = LookupStep::Resolve {
                        company: self.action.company.clone(),
                        ticker: self.ticker.clone(),
                    };
                    (traces, step)
                } else {
                    self.advance()
                }
            },
        }
    }

    /// Takes in the symbols offered for the company.
    pub fn on_resolve(&mut self, result: Result<Vec<String>, String>) -> (r: (Vec<String>, LookupStep))
        requires
            old(self).wf(),
            old(self).phase_spec() == LookupPhase::Resolving,
        ensures
            final(self).wf(),
            final(self).action_spec().company == old(self).action_spec().company,
            final(self).action_spec().ticker == old(self).action_spec().ticker,
            final(self).action_spec().prices == old(self).action_spec().prices,
            final(self).ticker_spec() == old(self).ticker_spec(),
            match result {
                Ok(c) => {
                    &&& final(self).candidates_spec() == strings_view(c@)
                    &&& match next_candidate(strings_view(c@), 0, old(self).ticker_spec()) {
                        Some(k) => final(self).phase_spec() == LookupPhase::Trying && final(self).next_spec() == k + 1
                            && final(self).action_spec() == old(self).action_spec() && (r.1 matches LookupStep::Fetch(t) && t@
                            == ticker_normal_form(strings_view(c@)[k as int])),
                        None => final(self).phase_spec() == LookupPhase::Done && r.1 is Done
                            && r.0@.len() == 0 && gave_up(
                            final(self).action_spec(),
                            old(self).action_spec(),
                            old(self).initial_error_spec(),
                        ),
                    }
                },
                Err(e) => {
                    &&& final(self).phase_spec() == LookupPhase::Done
                    &&& r.1 is Done
                    &&& gave_up(final(self).action_spec(), old(self).action_spec(), old(self).initial_error_spec())
                    &&& strings_view(r.0@) == seq![
                        "⚠️ No se pudo resolver el nombre de mercado para "@ + old(self).action_spec().company@ + ": "@ + e@,
                    ]
                },
            },
    {
        match result {
            Ok(c) => {
                self.candidates = c;
                self.next = 0;
                self.advance()
            },
            Err(e) => {
                let mut traces: Vec<String> = Vec::new();
                let mut t = copy_str("⚠️ No se pudo resolver el nombre de mercado para ");
                push_str(&mut t, self.action.company.as_str());
                push_str(&mut t, ": ");
                push_str(&mut t, e.as_str());
                traces.push(t);
                assert(strings_view(traces@) =~= seq![
                    "⚠️ No se pudo resolver el nombre de mercado para "@ + old(self).action.company@ + ": "@ + e@,
                ]);
                let step = self.give_up();
                (traces, step)
            },
        }
    }
}


/// The candidate tried next is an acceptable ticker other than the
/// company's own, and every candidate skipped before it was not.
pub proof fn lemma_tried_candidates_are_usable(cands: Seq<Seq<char>>, from: nat, ticker: Seq<char>)
    ensures
        match next_candidate(cands, from, ticker) {
            Some(k) => from <= k < cands.len() && candidate_usable(cands[k as int], ticker)
                && ticker_ok(ticker_normal_form(cands[k as int])) && ticker_normal_form(
                cands[k as int],
            ) != ticker && forall|j: int|
                from <= j < k ==> !candidate_usable(#[trigger] cands[j], ticker),
            None => forall|j: int| from <= j < cands.len() ==> !candidate_usable(#[trigger] cands[j], ticker),
        },
    decreases cands.len() - from,
{
    if from < cands.len() && !candidate_usable(cands[from as int], ticker) {
        lemma_tried_candidates_are_usable(cands, from + 1, ticker);
    }
}

} // verus!
