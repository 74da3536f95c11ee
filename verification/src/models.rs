//! Domain data shared by the agents, the orchestrator, storage and the
//! terminal interface.
//!
//! Identifiers are 128-bit UUID values and instants are seconds and
//! nanoseconds since the Unix epoch (UTC). A price is an IEEE-754 double
//! carried by its bit pattern.
use vstd::prelude::*;
use crate::text::{
    chars_of, copy_str, lower, lower_chars, string_from_chars, trim, trim_chars, trim_str,
};

verus! {

/// Author of a chat message.
#[derive(Clone, Copy, Debug, PartialEq, Eq, Structural)]
pub enum Role {
    System,
    User,
    Assistant,
    Tool,
}

/// The lower-case wire name of a role.
pub open spec fn role_label(r: Role) -> Seq<char> {
    match r {
        Role::System => "system"@,
        Role::User => "user"@,
        Role::Assistant => "assistant"@,
        Role::Tool => "tool"@,
    }
}

impl Role {
    /// The lower-case wire name, as used on the chat API and in storage.
    pub fn label(&self) -> (s: &'static str)
        ensures
            s@ == role_label(*self),
    {
        match self {
            Role::System => "system",
            Role::User => "user",
            Role::Assistant => "assistant",
            Role::Tool => "tool",
        }
    }
}

/// An instant: seconds and nanoseconds since the Unix epoch, UTC.
#[derive(Clone, Copy, Debug, PartialEq, Eq, Structural)]
pub struct Timestamp {
    pub secs: i64,
    pub nanos: u32,
}

#[derive(Clone, Debug)]
pub struct Message {
    pub id: u128,
    pub conversation_id: u128,
    pub role: Role,
    pub content: String,
    pub created_at: Timestamp,
    pub thinking: Option<String>,
}

/// A message as the contracts see it.
pub struct MessageView {
    pub id: u128,
    pub conversation_id: u128,
    pub role: Role,
    pub content: Seq<char>,
    pub created_at: Timestamp,
    pub thinking: Option<Seq<char>>,
}

pub open spec fn opt_view(s: Option<String>) -> Option<Seq<char>> {
    match s {
        Some(t) => Some(t@),
        None => None,
    }
}

impl View for Message {
    type V = MessageView;

    open spec fn view(&self) -> MessageView {
        MessageView {
            id: self.id,
            conversation_id: self.conversation_id,
            role: self.role,
            content: self.content@,
            created_at: self.created_at,
            thinking: opt_view(self.thinking),
        }
    }
}

/// The views of a sequence of messages.
pub open spec fn messages_view(v: Seq<Message>) -> Seq<MessageView> {
    Seq::new(v.len(), |i: int| v[i]@)
}

/// The views of a sequence of strings.
pub open spec fn strings_view(v: Seq<String>) -> Seq<Seq<char>> {
    Seq::new(v.len(), |i: int| v[i]@)
}

#[derive(Clone, Debug)]
pub struct Conversation {
    pub id: u128,
    pub title: String,
    pub created_at: Timestamp,
}

/// A conversation as the contracts see it: identifier, title, creation.
pub open spec fn conversation_view(c: Conversation) -> (u128, Seq<char>, Timestamp) {
    (c.id, c.title@, c.created_at)
}

/// The views of a list of conversations.
pub open spec fn conversations_view(v: Seq<Conversation>) -> Seq<(u128, Seq<char>, Timestamp)> {
    Seq::new(v.len(), |i: int| conversation_view(v[i]))
}

/// What the assistant knows of the user's investing background.
#[derive(Clone, Debug)]
pub struct UserProfile {
    pub experience: Option<String>,
    pub knowledge: Option<String>,
    pub platforms: Option<String>,
    pub holdings: Option<Vec<String>>,
    pub is_complete: bool,
}

impl Default for UserProfile {
    fn default() -> (p: UserProfile)
        ensures
            p.experience is None,
            p.knowledge is None,
            p.platforms is None,
            p.holdings is None,
            !p.is_complete,
    {
        UserProfile {
            experience: None,
            knowledge: None,
            platforms: None,
            holdings: None,
            is_complete: false,
        }
    }
}

#[derive(Clone, Debug)]
pub struct SourceCitation {
    pub title: String,
    pub url: String,
    pub retrieved_at: Timestamp,
}

/// One price observation: an IEEE-754 double given by its bits, and the
/// second (Unix time) it refers to.
#[derive(Clone, Copy, Debug, PartialEq, Eq, Structural)]
pub struct PricePoint {
    pub price_bits: u64,
    pub as_of: i64,
}

#[derive(Clone, Debug)]
pub struct PriceHistory {
    pub today: Option<PricePoint>,
    pub one_week: Option<PricePoint>,
    pub one_year: Option<PricePoint>,
    pub currency: String,
    pub exchange: Option<String>,
    pub source_url: String,
}

/// Research outcome for one company.
#[derive(Clone, Debug)]
pub struct StockAction {
    pub company: String,
    pub ticker: String,
    pub sentiment: String,
    pub reasoning: String,
    pub catalysts: Vec<String>,
    pub risks: Vec<String>,
    pub sources: Option<Vec<SourceCitation>>,
    pub prices: Option<PriceHistory>,
}

/// What the router decided the user wants.
#[derive(Clone, Copy, Debug, PartialEq, Eq, Structural)]
pub enum QueryIntent {
    Educational,
    Investigation,
    OutOfScope,
}

/// The intent named by a router label: the label is trimmed and compared
/// case-insensitively (ASCII).
pub open spec fn intent_of_label(label: Seq<char>) -> Option<QueryIntent> {
    let l = lower(trim(label));
    if l == "educational"@ {
        Some(QueryIntent::Educational)
    } else if l == "investigation"@ {
        Some(QueryIntent::Investigation)
    } else if l == "out_of_scope"@ || l == "outofscope"@ {
        Some(QueryIntent::OutOfScope)
    } else {
        None
    }
}

/// Two character sequences are equal.
pub fn chars_eq(a: &[char], b: &[char]) -> (r: bool)
    ensures
        r == (a@ == b@),
{
    if a.len() != b.len() {
        return false;
    }
    let mut i: usize = 0;
    while i < a.len()
        invariant
            i <= a@.len(),
            a@.len() == b@.len(),
            forall|k: int| 0 <= k < i ==> a@[k] == b@[k],
        decreases a@.len() - i,
    {
        if a[i] != b[i] {
            return false;
        }
        i += 1;
    }
    assert(a@ =~= b@);
    true
}

/// `v` spells the string `lit`.
pub fn chars_eq_str(v: &[char], lit: &str) -> (r: bool)
    ensures
        r == (v@ == lit@),
{
    let l = chars_of(lit);
    chars_eq(v, l.as_slice())
}

impl QueryIntent {
    /// Reads a router label; an unknown label is returned as the error,
    /// trimmed and lower-cased.
    pub fn from_label(label: &str) -> (r: Result<QueryIntent, String>)
        ensures
            match r {
                Ok(i) => intent_of_label(label@) == Some(i),
                Err(v) => intent_of_label(label@) is None && v@ == lower(trim(label@)),
            },
    {
        let v = chars_of(label);
        let t = trim_chars(v.as_slice());
        let l = lower_chars(t.as_slice());
        if chars_eq_str(l.as_slice(), "educational") {
            Ok(QueryIntent::Educational)
        } else if chars_eq_str(l.as_slice(), "investigation") {
            Ok(QueryIntent::Investigation)
        } else if chars_eq_str(l.as_slice(), "out_of_scope") || chars_eq_str(
            l.as_slice(),
            "outofscope",
        ) {
            Ok(QueryIntent::OutOfScope)
        } else {
            Err(string_from_chars(l.as_slice()))
        }
    }
}


/// A JSON value as far as the router's decision reads it.
#[derive(Clone, Debug)]
pub enum JsonField {
    /// The key is absent.
    Missing,
    Null,
    Bool(bool),
    Text(String),
    /// An array; an element that is not a string is `None`.
    List(Vec<Option<String>>),
    /// A number or an object.
    Other,
}

/// The text of an array element that is a string.
pub open spec fn element_text(o: Option<String>) -> Seq<char> {
    match o {
        Some(s) => s@,
        None => Seq::empty(),
    }
}

/// The companies named by the `companies` field: none when it is absent or
/// null, one for a string, each element of an array of strings. Any other
/// value does not fit.
pub open spec fn companies_of(f: JsonField) -> Result<Seq<Seq<char>>, Seq<char>> {
    match f {
        JsonField::Missing => Ok(Seq::empty()),
        JsonField::Null => Ok(Seq::empty()),
        JsonField::Text(s) => Ok(seq![s@]),
        JsonField::List(v) => if forall|i: int| 0 <= i < v@.len() ==> (#[trigger] v@[i]) is Some {
            Ok(Seq::new(v@.len(), |i: int| element_text(v@[i])))
        } else {
            Err("company tickers must be strings"@)
        },
        _ => Err("companies must be an array of strings or a string"@),
    }
}

/// A flag that may be absent or null (then false).
pub open spec fn flag_of(f: JsonField) -> Option<bool> {
    match f {
        JsonField::Missing => Some(false),
        JsonField::Null => Some(false),
        JsonField::Bool(b) => Some(b),
        _ => None,
    }
}

/// A text that may be absent or null (then empty).
pub open spec fn text_of(f: JsonField) -> Option<Seq<char>> {
    match f {
        JsonField::Missing => Some(Seq::empty()),
        JsonField::Null => Some(Seq::empty()),
        JsonField::Text(s) => Some(s@),
        _ => None,
    }
}

/// The intent named by the `intent` field, which must be a known label.
pub open spec fn intent_field(f: JsonField) -> Option<QueryIntent> {
    match f {
        JsonField::Text(s) => intent_of_label(s@),
        _ => None,
    }
}

/// Reads the `companies` field.
pub fn nullable_strings(f: &JsonField) -> (r: Result<Vec<String>, String>)
    ensures
        match r {
            Ok(v) => companies_of(*f) == Ok::<Seq<Seq<char>>, Seq<char>>(strings_view(v@)),
            Err(e) => companies_of(*f) == Err::<Seq<Seq<char>>, Seq<char>>(e@),
        },
{
    match f {
        JsonField::Missing | JsonField::Null => {
            let v: Vec<String> = Vec::new();
            assert(strings_view(v@) =~= Seq::<Seq<char>>::empty());
            Ok(v)
        },
        JsonField::Text(s) => {
            let mut v: Vec<String> = Vec::new();
            v.push(copy_str(s.as_str()));
            assert(strings_view(v@) =~= seq![s@]);
            Ok(v)
        },
        JsonField::List(items) => {
            let mut v: Vec<String> = Vec::new();
            let mut i: usize = 0;
            while i < items.len()
                invariant
                    *f == JsonField::List(*items),
                    i <= items@.len(),
                    v@.len() == i,
                    forall|j: int| 0 <= j < i ==> (#[trigger] items@[j]) is Some,
                    forall|j: int| 0 <= j < i ==> #[trigger] v@[j]@ == element_text(items@[j]),
                decreases items@.len() - i,
            {
                match &items[i] {
                    Some(t) => v.push(copy_str(t.as_str())),
                    None => {
                        assert(!(items@[i as int] is Some));
                        return Err(copy_str("company tickers must be strings"));
                    },
                }
                i += 1;
            }
            assert(strings_view(v@) =~= Seq::new(items@.len(), |j: int| element_text(items@[j])));
            Ok(v)
        },
        _ => Err(copy_str("companies must be an array of strings or a string")),
    }
}

/// Reads a flag that may be null.
pub fn nullable_bool(f: &JsonField) -> (r: Option<bool>)
    ensures
        r == flag_of(*f),
{
    match f {
        JsonField::Missing | JsonField::Null => Some(false),
        JsonField::Bool(b) => Some(*b),
        _ => None,
    }
}

/// Reads a text that may be null.
pub fn nullable_string(f: &JsonField) -> (r: Option<String>)
    ensures
        opt_view(r) == text_of(*f),
{
    match f {
        JsonField::Missing | JsonField::Null => Some(String::new()),
        JsonField::Text(s) => Some(copy_str(s.as_str())),
        _ => None,
    }
}

/// The router's structured answer.
#[derive(Clone, Debug)]
pub struct RouteDecision {
    pub intent: QueryIntent,
    pub companies: Vec<String>,
    pub requires_discovery: bool,
    pub discovery_topic: String,
}


impl RouteDecision {
    /// The decision held by the router's JSON fields, or `None` when they do
    /// not fit the schema: the intent must be a known label; the companies,
    /// the discovery flag and the topic may be absent or null.
    pub fn from_fields(
        intent: &JsonField,
        companies: &JsonField,
        requires_discovery: &JsonField,
        discovery_topic: &JsonField,
    ) -> (r: Option<RouteDecision>)
        ensures
            r is Some <==> (intent_field(*intent) is Some && companies_of(*companies) is Ok
                && flag_of(*requires_discovery) is Some && text_of(*discovery_topic) is Some),
            r matches Some(d) ==> {
                &&& Some(d.intent) == intent_field(*intent)
                &&& companies_of(*companies) == Ok::<Seq<Seq<char>>, Seq<char>>(
                    strings_view(d.companies@),
                )
                &&& Some(d.requires_discovery) == flag_of(*requires_discovery)
                &&& Some(d.discovery_topic@) == text_of(*discovery_topic)
            },
    {
        let intent = match intent {
            JsonField::Text(label) => match QueryIntent::from_label(label.as_str()) {
                Ok(i) => i,
                Err(_) => {
                    return None;
                },
            },
            _ => {
                return None;
            },
        };
        let companies = match nullable_strings(companies) {
            Ok(v) => v,
            Err(_) => {
                return None;
            },
        };
        let requires_discovery = match nullable_bool(requires_discovery) {
            Some(b) => b,
            None => {
                return None;
            },
        };
        let discovery_topic = match nullable_string(discovery_topic) {
            Some(t) => t,
            None => {
                return None;
            },
        };
        Some(RouteDecision { intent, companies, requires_discovery, discovery_topic })
    }
}

/// What the orchestrator will do for a query.
#[derive(Clone, Debug)]
pub enum QueryPlan {
    Educational,
    OutOfScope,
    Investigation { companies: Vec<String>, discovery_topic: Option<String> },
}

/// The plan a route decision leads to: an investigation searches for a
/// topic only when discovery was asked for and the topic is not blank.
pub open spec fn plan_of(d: RouteDecision) -> QueryPlan {
    match d.intent {
        QueryIntent::Educational => QueryPlan::Educational,
        QueryIntent::OutOfScope => QueryPlan::OutOfScope,
        QueryIntent::Investigation => QueryPlan::Investigation {
            companies: d.companies,
            discovery_topic: if d.requires_discovery && trim(d.discovery_topic@).len() > 0 {
                Some(d.discovery_topic)
            } else {
                None
            },
        },
    }
}

impl QueryPlan {
    pub fn from_decision(d: RouteDecision) -> (p: QueryPlan)
        ensures
            p == plan_of(d),
    {
        match d.intent {
            QueryIntent::Educational => QueryPlan::Educational,
            QueryIntent::OutOfScope => QueryPlan::OutOfScope,
            QueryIntent::Investigation => {
                let blank = trim_str(d.discovery_topic.as_str()).as_str().is_empty();
                let topic = if d.requires_discovery && !blank {
                    Some(d.discovery_topic)
                } else {
                    None
                };
                QueryPlan::Investigation { companies: d.companies, discovery_topic: topic }
            },
        }
    }
}

} // verus!
