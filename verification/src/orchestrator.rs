//! Orchestration of a query: the guardrails, the decisions of the agent
//! pipeline as a state machine, and the bookkeeping of a run.
use vstd::prelude::*;
use crate::agents::chat_is;
use crate::events::RunEvent;
use crate::models::{
    QueryIntent, messages_view, plan_of, role_label, strings_view, Message, MessageView, QueryPlan,
    Role, RouteDecision, Timestamp, UserProfile,
};
use crate::ollama::ChatMessage;
use crate::text::{
    lemma_lower_idempotent, lemma_lower_upper, lemma_trim_lower, lemma_trim_upper, upper, byte_len, byte_len_exceeds, chars_of, concat, copy_str, contains, lower, lower_chars,
    string_from_chars, take_chars, take_chars_exec, trim, trim_chars,
};

verus! {

/// Some marker of `markers` occurs in `s`.
pub open spec fn mentions_any(s: Seq<char>, markers: Seq<&str>) -> bool {
    exists|k: int| 0 <= k < markers.len() && contains(s, markers[k]@)
}

fn mentions_any_exec(s: &[char], markers: &[&str]) -> (b: bool)
    ensures
        b == mentions_any(s@, markers@),
{
    crate::text::contains_any(s, markers)
}

/// Markers of a query about finance.
pub open spec fn financial_markers() -> Seq<&'static str> {
    seq![
        "acción",
        "acciones",
        "stock",
        "etf",
        "bono",
        "invert",
        "ticker",
        "mercado",
        "cartera",
        "portfolio",
        "precio",
        "cotización",
        "financ",
        "riesgo",
        "dividendo",
        "earnings",
        "share",
    ]
}

/// Markers of a query plainly about something else.
pub open spec fn off_topic_markers() -> Seq<&'static str> {
    seq![
        "pizza",
        "receta",
        "cocina",
        "cocinar",
        "cocin",
        "hornear",
        "ingredientes para",
        "weather",
        "clima",
        "fútbol",
        "futbol",
        "football",
        "videojuego",
        "videojuegos",
    ]
}

/// A query is plainly out of scope when, trimmed and lower-cased (ASCII),
/// it mentions no financial marker and some off-topic marker.
pub open spec fn out_of_scope(query: Seq<char>) -> bool {
    let q = lower(trim(query));
    !mentions_any(q, financial_markers()) && mentions_any(q, off_topic_markers())
}

/// The guardrail applied before any agent runs.
pub fn is_obviously_out_of_scope(query: &str) -> (b: bool)
    ensures
        b == out_of_scope(query@),
{
    let v = chars_of(query);
    let t = trim_chars(v.as_slice());
    let q = lower_chars(t.as_slice());
    let financial: [&str; 17] = [
        "acción",
        "acciones",
        "stock",
        "etf",
        "bono",
        "invert",
        "ticker",
        "mercado",
        "cartera",
        "portfolio",
        "precio",
        "cotización",
        "financ",
        "riesgo",
        "dividendo",
        "earnings",
        "share",
    ];
    assert(financial@ =~= financial_markers());
    if mentions_any_exec(q.as_slice(), financial.as_slice()) {
        return false;
    }
    let off_topic: [&str; 14] = [
        "pizza",
        "receta",
        "cocina",
        "cocinar",
        "cocin",
        "hornear",
        "ingredientes para",
        "weather",
        "clima",
        "fútbol",
        "futbol",
        "football",
        "videojuego",
        "videojuegos",
    ];
    assert(off_topic@ =~= off_topic_markers());
    mentions_any_exec(q.as_slice(), off_topic.as_slice())
}

/// Markers of an error that may go away on a retry.
pub open spec fn transient_markers() -> Seq<&'static str> {
    seq![
        "timeout",
        "timed out",
        "request failed",
        "connection",
        "network",
        "temporarily unavailable",
        "returned 429",
        "returned 500",
        "returned 501",
        "returned 502",
        "returned 503",
        "returned 504",
        "api error 429",
        "api error 5",
    ]
}

/// An error message, lower-cased (ASCII), mentions a transient failure.
pub open spec fn retryable_message(message: Seq<char>) -> bool {
    mentions_any(lower(message), transient_markers())
}

/// Whether a failed run is worth retrying, judged from its error message.
pub fn is_retryable_error(message: &str) -> (b: bool)
    ensures
        b == retryable_message(message@),
{
    let v = chars_of(message);
    let m = lower_chars(v.as_slice());
    let markers: [&str; 14] = [
        "timeout",
        "timed out",
        "request failed",
        "connection",
        "network",
        "temporarily unavailable",
        "returned 429",
        "returned 500",
        "returned 501",
        "returned 502",
        "returned 503",
        "returned 504",
        "api error 429",
        "api error 5",
    ];
    assert(markers@ =~= transient_markers());
    mentions_any_exec(m.as_slice(), markers.as_slice())
}

/// A value shown in a trace: unchanged up to 1500 bytes, otherwise its
/// first 1500 characters and an ellipsis.
pub open spec fn trace_excerpt(value: Seq<char>) -> Seq<char> {
    if byte_len(value) <= 1500 {
        value
    } else {
        take_chars(value, 1500).push('…')
    }
}

pub fn truncate_for_trace(value: &str) -> (r: String)
    ensures
        r@ == trace_excerpt(value@),
{
    let v = chars_of(value);
    if !byte_len_exceeds(v.as_slice(), 1500) {
        return string_from_chars(v.as_slice());
    }
    let mut t = take_chars_exec(v.as_slice(), 1500);
    t.push('…');
    string_from_chars(t.as_slice())
}


// ---------------------------------------------------------------------------
// The pipeline of one query
// ---------------------------------------------------------------------------
/// The answer to a query outside the financial domain.
pub const OUT_OF_SCOPE_RESPONSE: &'static str = "Solo puedo ayudarte con educación financiera, mercados, acciones, ETFs, bonos, carteras, riesgo y datos económicos. No puedo resolver tareas ajenas al dominio, como preparar una pizza. Reformula tu pregunta desde una perspectiva financiera y estaré encantado de ayudarte.";

/// Appended to every answer produced by the agents.
pub const FINANCIAL_DISCLAIMER: &'static str = "\n\n> **Aviso:** Este informe es únicamente educativo e informativo. No constituye asesoramiento financiero, fiscal o legal. Verifica los datos y considera tu situación y tolerancia al riesgo antes de tomar decisiones.";

/// The longest a run may take, in seconds.
pub const MAX_RUN_SECS: u64 = 300;

/// Conversations longer than this are summarised before the agents run.
pub const CONTEXT_LIMIT: usize = 10;

/// Where a query stands.
#[derive(Clone, Copy, Debug, PartialEq, Eq, Structural)]
pub enum Phase {
    SavingQuery,
    Loading,
    Summarizing,
    UpdatingProfile,
    SavingProfile,
    AskingProfile,
    Routing,
    Researching,
    FetchingPrices,
    FormattingReport,
    Informing,
    FormattingLesson,
    SavingReply,
    Done,
}

/// The order in which phases can follow each other.
pub open spec fn rank(p: Phase) -> nat {
    match p {
        Phase::SavingQuery => 1,
        Phase::Loading => 2,
        Phase::Summarizing => 3,
        Phase::UpdatingProfile => 4,
        Phase::SavingProfile => 5,
        Phase::AskingProfile => 6,
        Phase::Routing => 7,
        Phase::Researching => 8,
        Phase::FetchingPrices => 9,
        Phase::FormattingReport => 10,
        Phase::Informing => 11,
        Phase::FormattingLesson => 12,
        Phase::SavingReply => 13,
        Phase::Done => 14,
    }
}

/// Progress reported while a query runs.
#[derive(Debug)]
pub enum Notice {
    Trace(String),
    Stage { agent: String, current: usize, total: usize },
    /// The plan the router's decision led to.
    Plan(QueryPlan),
    /// The companies the investigation will cover.
    Targets(Vec<String>),
}

pub enum NoticeView {
    Trace(Seq<char>),
    Stage(Seq<char>, nat, nat),
    Plan(QueryPlan),
    Targets(Seq<Seq<char>>),
}

impl View for Notice {
    type V = NoticeView;

    open spec fn view(&self) -> NoticeView {
        match self {
            Notice::Trace(t) => NoticeView::Trace(t@),
            Notice::Stage { agent, current, total } => NoticeView::Stage(
                agent@,
                *current as nat,
                *total as nat,
            ),
            Notice::Plan(p) => NoticeView::Plan(*p),
            Notice::Targets(v) => NoticeView::Targets(strings_view(v@)),
        }
    }
}

pub open spec fn notices_view(v: Seq<Notice>) -> Seq<NoticeView> {
    Seq::new(v.len(), |i: int| v[i]@)
}

/// The outside work to do next.
#[derive(Debug)]
pub enum Command {
    /// Store the user's query as a message of the conversation.
    SaveQuery(String),
    /// Read the conversation's messages and the user's profile.
    Load,
    /// Ask the model to summarise `QueryRun::messages_to_summarize`.
    Summarize,
    /// Ask the profile agent to update the profile from the conversation.
    UpdateProfile,
    /// Store the current profile.
    SaveProfile,
    /// Ask the profile agent for the question to put to the user.
    AskProfile,
    /// Ask the router agent for a decision.
    Route,
    /// Run the news agent on these companies, possibly discovering more.
    Research { companies: Vec<String>, requires_discovery: bool, discovery_topic: String },
    /// Run the market-data agent on the research results.
    FetchPrices,
    /// Ask the formatter for the investigation report.
    FormatReport,
    /// Ask the informer agent for an educational answer.
    Inform,
    /// Ask the formatter to style the informer's answer.
    FormatLesson(String),
    /// Store this reply as the assistant's message.
    SaveReply(String),
    /// The run is over, with this answer or error.
    Finish(Result<String, String>),
}

pub enum CommandView {
    SaveQuery(Seq<char>),
    Load,
    Summarize,
    UpdateProfile,
    SaveProfile,
    AskProfile,
    Route,
    Research(Seq<Seq<char>>, bool, Seq<char>),
    FetchPrices,
    FormatReport,
    Inform,
    FormatLesson(Seq<char>),
    SaveReply(Seq<char>),
    Finish(Result<Seq<char>, Seq<char>>),
}

impl View for Command {
    type V = CommandView;

    open spec fn view(&self) -> CommandView {
        match self {
            Command::SaveQuery(q) => CommandView::SaveQuery(q@),
            Command::Load => CommandView::Load,
            Command::Summarize => CommandView::Summarize,
            Command::UpdateProfile => CommandView::UpdateProfile,
            Command::SaveProfile => CommandView::SaveProfile,
            Command::AskProfile => CommandView::AskProfile,
            Command::Route => CommandView::Route,
            Command::Research { companies, requires_discovery, discovery_topic } =>
                CommandView::Research(
                strings_view(companies@),
                *requires_discovery,
                discovery_topic@,
            ),
            Command::FetchPrices => CommandView::FetchPrices,
            Command::FormatReport => CommandView::FormatReport,
            Command::Inform => CommandView::Inform,
            Command::FormatLesson(t) => CommandView::FormatLesson(t@),
            Command::SaveReply(t) => CommandView::SaveReply(t@),
            Command::Finish(r) => CommandView::Finish(
                match r {
                    Ok(t) => Ok(t@),
                    Err(e) => Err(e@),
                },
            ),
        }
    }
}

/// The router's answer.
pub enum RouteAnswer {
    /// A decision that fits the expected schema.
    Decision(RouteDecision),
    /// Structured data that does not fit the schema, as JSON text.
    Malformed(String),
    /// Text where structured data was expected.
    Unstructured,
}

/// What came of the last command.
pub enum Outcome {
    /// A store succeeded.
    Saved,
    Loaded { messages: Vec<Message>, profile: UserProfile },
    /// The model's summary, with the identifier and instant for the message
    /// that will hold it.
    Summary { text: String, id: u128, created_at: Timestamp },
    ProfileUpdated(UserProfile),
    /// The profile agent's text, or `None` when it gave structured data.
    ProfileReply(Option<String>),
    Routed(RouteAnswer),
    Researched,
    PricesFetched,
    /// An agent's text, or `None` when it gave structured data.
    Written(Option<String>),
    /// The command failed with this error.
    Failed(String),
}

/// The outcome answers the command issued in this phase (a failure answers
/// any).
pub open spec fn fits(phase: Phase, outcome: Outcome) -> bool {
    match outcome {
        Outcome::Failed(_) => phase != Phase::Done,
        Outcome::Saved => phase == Phase::SavingQuery || phase == Phase::SavingProfile || phase
            == Phase::SavingReply,
        Outcome::Loaded { .. } => phase == Phase::Loading,
        Outcome::Summary { .. } => phase == Phase::Summarizing,
        Outcome::ProfileUpdated(_) => phase == Phase::UpdatingProfile,
        Outcome::ProfileReply(_) => phase == Phase::AskingProfile,
        Outcome::Routed(_) => phase == Phase::Routing,
        Outcome::Researched => phase == Phase::Researching,
        Outcome::PricesFetched => phase == Phase::FetchingPrices,
        Outcome::Written(_) => phase == Phase::FormattingReport || phase == Phase::Informing
            || phase == Phase::FormattingLesson,
    }
}

/// A query's state, as the contracts see it.
pub struct RunView {
    pub phase: Phase,
    pub query: Seq<char>,
    pub messages: Seq<MessageView>,
    pub profile: UserProfile,
    pub reply: Seq<char>,
}

/// One query going through the agent pipeline.
pub struct QueryRun {
    phase: Phase,
    query: String,
    messages: Vec<Message>,
    profile: UserProfile,
    reply: String,
}

impl View for QueryRun {
    type V = RunView;

    closed spec fn view(&self) -> RunView {
        RunView {
            phase: self.phase,
            query: self.query@,
            messages: messages_view(self.messages@),
            profile: self.profile,
            reply: self.reply@,
        }
    }
}

/// The message that replaces a summarised conversation's beginning.
pub open spec fn summary_message(
    conversation_id: u128,
    text: Seq<char>,
    id: u128,
    created_at: Timestamp,
) -> MessageView {
    MessageView {
        id,
        conversation_id,
        role: Role::System,
        content: "Resumen de la conversación previa: "@ + text,
        created_at,
        thinking: None,
    }
}

/// Continue with the router.
pub open spec fn start_routing(run: RunView) -> (RunView, Seq<NoticeView>, CommandView) {
    (
        RunView { phase: Phase::Routing, ..run },
        seq![
            NoticeView::Trace("🔀 Agente Router: Identificando intención..."@),
            NoticeView::Stage("Router"@, 2, 5),
        ],
        CommandView::Route,
    )
}

/// With the conversation in hand: complete the profile first if needed.
pub open spec fn check_profile(run: RunView) -> (RunView, Seq<NoticeView>, CommandView) {
    if !run.profile.is_complete {
        (
            RunView { phase: Phase::UpdatingProfile, ..run },
            seq![
                NoticeView::Stage("Profile"@, 1, 5),
                NoticeView::Trace("🧩 Agente Perfil: Analizando requisitos faltantes..."@),
            ],
            CommandView::UpdateProfile,
        )
    } else {
        start_routing(run)
    }
}

/// The companies an investigation covers: the decision's, or the user's
/// holdings when the decision names none and asks for no discovery.
pub open spec fn uses_holdings(d: RouteDecision, profile: UserProfile) -> bool {
    d.companies@.len() == 0 && !(d.requires_discovery && trim(d.discovery_topic@).len() > 0)
        && profile.holdings is Some
}

pub open spec fn research_targets(d: RouteDecision, profile: UserProfile) -> Seq<Seq<char>> {
    if uses_holdings(d, profile) {
        strings_view(profile.holdings.unwrap()@)
    } else {
        strings_view(d.companies@)
    }
}

/// Where the router's decision leads.
pub open spec fn follow_decision(run: RunView, d: RouteDecision) -> (
    RunView,
    Seq<NoticeView>,
    CommandView,
) {
    let plan = NoticeView::Plan(plan_of(d));
    match d.intent {
        crate::models::QueryIntent::OutOfScope => (
            RunView { phase: Phase::SavingReply, reply: OUT_OF_SCOPE_RESPONSE@, ..run },
            seq![
                plan,
                NoticeView::Trace("🛡️ Guardrail del Router: consulta fuera del dominio financiero."@),
            ],
            CommandView::SaveReply(OUT_OF_SCOPE_RESPONSE@),
        ),
        crate::models::QueryIntent::Educational => (
            RunView { phase: Phase::Informing, ..run },
            seq![
                plan,
                NoticeView::Stage("Informer"@, 3, 4),
                NoticeView::Trace("🎓 Iniciando flujo EDUCATIVO..."@),
                NoticeView::Trace("💡 Agente Informer: Generando respuesta..."@),
            ],
            CommandView::Inform,
        ),
        crate::models::QueryIntent::Investigation => {
            let discovery = d.requires_discovery && trim(d.discovery_topic@).len() > 0;
            let targets = research_targets(d, run.profile);
            let head = seq![plan, NoticeView::Trace("🔍 Iniciando flujo de INVESTIGACIÓN..."@)];
            let middle = if uses_holdings(d, run.profile) {
                seq![NoticeView::Trace("Utilizando empresas del perfil para investigación."@)]
            } else {
                Seq::empty()
            };
            (
                RunView { phase: Phase::Researching, ..run },
                head + middle + seq![
                    NoticeView::Targets(targets),
                    NoticeView::Stage("NewsSearcher"@, 3, 5),
                    NoticeView::Trace("📰 Agente NewsSearcher: Procesando noticias..."@),
                ],
                CommandView::Research(
                    targets,
                    discovery,
                    if discovery {
                        d.discovery_topic@
                    } else {
                        Seq::empty()
                    },
                ),
            )
        },
    }
}

/// The run ends with an error.
pub open spec fn fail_with(run: RunView, message: Seq<char>) -> (
    RunView,
    Seq<NoticeView>,
    CommandView,
) {
    (RunView { phase: Phase::Done, ..run }, Seq::empty(), CommandView::Finish(Err(message)))
}

/// Store a reply.
pub open spec fn reply_with(run: RunView, reply: Seq<char>, notices: Seq<NoticeView>) -> (
    RunView,
    Seq<NoticeView>,
    CommandView,
) {
    (RunView { phase: Phase::SavingReply, reply, ..run }, notices, CommandView::SaveReply(reply))
}

/// One step of the pipeline: the state, progress and command that follow
/// the outcome of the previous command.
pub open spec fn transition(run: RunView, outcome: Outcome) -> (
    RunView,
    Seq<NoticeView>,
    CommandView,
) {
    match outcome {
        Outcome::Failed(m) => fail_with(run, m@),
        Outcome::Saved => match run.phase {
            Phase::SavingQuery => if out_of_scope(run.query) {
                reply_with(
                    run,
                    OUT_OF_SCOPE_RESPONSE@,
                    seq![
                        NoticeView::Trace(
                            "🛡️ Guardrail: consulta fuera del dominio financiero; se bloquea el flujo de agentes."@,
                        ),
                    ],
                )
            } else {
                (RunView { phase: Phase::Loading, ..run }, Seq::empty(), CommandView::Load)
            },
            Phase::SavingProfile => if !run.profile.is_complete {
                (
                    RunView { phase: Phase::AskingProfile, ..run },
                    seq![
                        NoticeView::Trace(
                            "🧩 Agente Perfil: Solicitando información al usuario..."@,
                        ),
                    ],
                    CommandView::AskProfile,
                )
            } else {
                start_routing(run)
            },
            _ => (RunView { phase: Phase::Done, ..run }, Seq::empty(), CommandView::Finish(Ok(run.reply))),
        },
        Outcome::Loaded { messages, profile } => {
            let loaded = RunView { messages: messages_view(messages@), profile, ..run };
            if messages@.len() > CONTEXT_LIMIT {
                (
                    RunView { phase: Phase::Summarizing, ..loaded },
                    seq![NoticeView::Trace("Comprimiendo contexto (>10 mensajes)..."@)],
                    CommandView::Summarize,
                )
            } else {
                check_profile(loaded)
            }
        },
        Outcome::Summary { text, id, created_at } => {
            let m = run.messages;
            let summarized = RunView {
                messages: seq![summary_message(m[0].conversation_id, text@, id, created_at)] + m.subrange(
                    m.len() - 2,
                    m.len() as int,
                ),
                ..run
            };
            check_profile(summarized)
        },
        Outcome::ProfileUpdated(p) => (
            RunView { phase: Phase::SavingProfile, profile: p, ..run },
            Seq::empty(),
            CommandView::SaveProfile,
        ),
        Outcome::ProfileReply(r) => match r {
            Some(t) => reply_with(run, t@, Seq::empty()),
            None => fail_with(run, "El agente de perfil no pudo producir texto."@),
        },
        Outcome::Routed(a) => match a {
            RouteAnswer::Decision(d) => follow_decision(run, d),
            RouteAnswer::Malformed(json) => fail_with(
                run,
                "La respuesta del Router no cumple el esquema de ruta esperado. JSON recibido: "@
                    + trace_excerpt(json@),
            ),
            RouteAnswer::Unstructured => fail_with(
                run,
                "El Router no produjo una decisión estructurada."@,
            ),
        },
        Outcome::Researched => (
            RunView { phase: Phase::FetchingPrices, ..run },
            seq![
                NoticeView::Stage("MarketData"@, 4, 5),
                NoticeView::Trace("📊 Agente StockData: Extrayendo precios históricos..."@),
            ],
            CommandView::FetchPrices,
        ),
        Outcome::PricesFetched => (
            RunView { phase: Phase::FormattingReport, ..run },
            seq![
                NoticeView::Stage("Formatter"@, 5, 5),
                NoticeView::Trace("📝 Agente Formatter: Generando reporte ejecutivo..."@),
            ],
            CommandView::FormatReport,
        ),
        Outcome::Written(w) => match run.phase {
            Phase::FormattingReport => reply_with(
                run,
                match w {
                    Some(t) => t@,
                    None => "Investigación completada pero falló el formateo de los resultados."@,
                } + FINANCIAL_DISCLAIMER@,
                Seq::empty(),
            ),
            Phase::Informing => (
                RunView { phase: Phase::FormattingLesson, ..run },
                seq![
                    NoticeView::Stage("Formatter"@, 4, 4),
                    NoticeView::Trace("📝 Agente Formatter: Estilizando respuesta..."@),
                ],
                CommandView::FormatLesson(
                    match w {
                        Some(t) => t@,
                        None => Seq::empty(),
                    },
                ),
            ),
            _ => match w {
                Some(t) => reply_with(
                    run,
                    t@ + FINANCIAL_DISCLAIMER@,
                    seq![NoticeView::Trace("✅ Flujo completado."@)],
                ),
                None => reply_with(run, "Educational response failed."@ + FINANCIAL_DISCLAIMER@, Seq::empty()),
            },
        },
    }
}


/// A copy of a list of strings.
pub fn copy_strings(v: &Vec<String>) -> (r: Vec<String>)
    ensures
        strings_view(r@) == strings_view(v@),
{
    let mut r: Vec<String> = Vec::new();
    let mut i: usize = 0;
    while i < v.len()
        invariant
            i <= v@.len(),
            r@.len() == i,
            strings_view(r@) =~= strings_view(v@.take(i as int)),
        decreases v@.len() - i,
    {
        let c = v[i].clone();
        assert(c@ == v@[i as int]@);
        let ghost prev = r@;
        r.push(c);
        assert forall|k: int| 0 <= k < i implies r@[k]@ == v@[k]@ by {
            assert(r@[k] == prev[k]);
            assert(strings_view(prev)[k] == strings_view(v@.take(i as int))[k]);
        }
        assert(strings_view(r@) =~= strings_view(v@.take(i + 1)));
        i += 1;
    }
    assert(v@.take(v@.len() as int) =~= v@);
    r
}

fn trace(text: &str) -> (n: Notice)
    ensures
        n@ == NoticeView::Trace(text@),
{
    Notice::Trace(copy_str(text))
}

fn stage(agent: &str, current: usize, total: usize) -> (n: Notice)
    ensures
        n@ == NoticeView::Stage(agent@, current as nat, total as nat),
{
    Notice::Stage { agent: copy_str(agent), current, total }
}

/// While summarising, the conversation is longer than the limit.
pub open spec fn run_wf(run: RunView) -> bool {
    run.phase == Phase::Summarizing ==> run.messages.len() > CONTEXT_LIMIT
}

impl QueryRun {
    /// The current phase.
    pub fn phase(&self) -> (p: Phase)
        ensures
            p == self@.phase,
    {
        self.phase
    }

    /// The query being answered.
    pub fn query(&self) -> (q: &str)
        ensures
            q@ == self@.query,
    {
        self.query.as_str()
    }

    /// The conversation the agents work on (summarised when it was long).
    pub fn messages(&self) -> (m: &Vec<Message>)
        ensures
            messages_view(m@) == self@.messages,
    {
        &self.messages
    }

    /// The user's profile as known to the run.
    pub fn profile(&self) -> (p: &UserProfile)
        ensures
            *p == self@.profile,
    {
        &self.profile
    }

    /// The messages a summary replaces, as chat messages under their role
    /// names: all but the last two.
    pub fn messages_to_summarize(&self) -> (r: Vec<ChatMessage>)
        requires
            self@.messages.len() >= 2,
        ensures
            r@.len() == self@.messages.len() - 2,
            forall|j: int|
                0 <= j < r@.len() ==> chat_is(
                    #[trigger] r@[j],
                    role_label(self@.messages[j].role),
                    self@.messages[j].content,
                ),
    {
        let n = self.messages.len() - 2;
        let mut r: Vec<ChatMessage> = Vec::new();
        let mut i: usize = 0;
        while i < n
            invariant
                n + 2 == self.messages@.len(),
                i <= n,
                r@.len() == i,
                forall|j: int|
                    0 <= j < i ==> chat_is(
                        #[trigger] r@[j],
                        role_label(self.messages@[j].role),
                        self.messages@[j]@.content,
                    ),
            decreases n - i,
        {
            let m = &self.messages[i];
            r.push(
                ChatMessage {
                    role: copy_str(m.role.label()),
                    content: m.content.clone(),
                    images: None,
                },
            );
            i += 1;
        }
        r
    }

    /// Starts answering `query`: it is first stored.
    pub fn new(query: String) -> (r: (QueryRun, Vec<Notice>, Command))
        ensures
            run_wf(r.0@),
            r.0@.phase == Phase::SavingQuery,
            r.0@.query == query@,
            r.0@.messages.len() == 0,
            r.0@.profile.experience is None && r.0@.profile.knowledge is None,
            r.0@.profile.platforms is None && r.0@.profile.holdings is None,
            !r.0@.profile.is_complete,
            r.0@.reply.len() == 0,
            notices_view(r.1@) == seq![NoticeView::Trace("Nueva consulta: "@ + query@)],
            r.2@ == CommandView::SaveQuery(query@),
    {
        let mut notices: Vec<Notice> = Vec::new();
        notices.push(Notice::Trace(concat("Nueva consulta: ", query.as_str())));
        let command = Command::SaveQuery(query.clone());
        let run = QueryRun {
            phase: Phase::SavingQuery,
            query,
            messages: Vec::new(),
            profile: UserProfile::default(),
            reply: String::new(),
        };
        assert(notices_view(notices@) =~= seq![NoticeView::Trace("Nueva consulta: "@ + query@)]);
        assert(messages_view(run.messages@) =~= Seq::<MessageView>::empty());
        (run, notices, command)
    }

    fn start_routing(&mut self) -> (r: (Vec<Notice>, Command))
        ensures
            final(self)@ == start_routing(old(self)@).0,
            notices_view(r.0@) == start_routing(old(self)@).1,
            r.1@ == start_routing(old(self)@).2,
    {
        self.phase = Phase::Routing;
        let mut n: Vec<Notice> = Vec::new();
        n.push(trace("🔀 Agente Router: Identificando intención..."));
        n.push(stage("Router", 2, 5));
        assert(notices_view(n@) =~= start_routing(old(self)@).1);
        (n, Command::Route)
    }

    fn check_profile(&mut self) -> (r: (Vec<Notice>, Command))
        ensures
            final(self)@ == check_profile(old(self)@).0,
            notices_view(r.0@) == check_profile(old(self)@).1,
            r.1@ == check_profile(old(self)@).2,
    {
        if !self.profile.is_complete {
            self.phase = Phase::UpdatingProfile;
            let mut n: Vec<Notice> = Vec::new();
            n.push(stage("Profile", 1, 5));
            n.push(trace("🧩 Agente Perfil: Analizando requisitos faltantes..."));
            assert(notices_view(n@) =~= check_profile(old(self)@).1);
            (n, Command::UpdateProfile)
        } else {
            self.start_routing()
        }
    }

    fn fail(&mut self, message: String) -> (r: (Vec<Notice>, Command))
        ensures
            final(self)@ == fail_with(old(self)@, message@).0,
            notices_view(r.0@) == fail_with(old(self)@, message@).1,
            r.1@ == fail_with(old(self)@, message@).2,
    {
        self.phase = Phase::Done;
        let n: Vec<Notice> = Vec::new();
        assert(notices_view(n@) =~= Seq::<NoticeView>::empty());
        (n, Command::Finish(Err(message)))
    }

    fn reply(&mut self, reply: String, n: Vec<Notice>) -> (r: (Vec<Notice>, Command))
        ensures
            final(self)@ == reply_with(old(self)@, reply@, notices_view(n@)).0,
            notices_view(r.0@) == reply_with(old(self)@, reply@, notices_view(n@)).1,
            r.1@ == reply_with(old(self)@, reply@, notices_view(n@)).2,
    {
        self.phase = Phase::SavingReply;
        self.reply = reply.clone();
        (n, Command::SaveReply(reply))
    }

    fn follow(&mut self, d: RouteDecision) -> (r: (Vec<Notice>, Command))
        ensures
            final(self)@ == follow_decision(old(self)@, d).0,
            notices_view(r.0@) == follow_decision(old(self)@, d).1,
            r.1@ == follow_decision(old(self)@, d).2,
    {
        let ghost g = d;
        let intent = d.intent;
        let blank = crate::text::trim_str(d.discovery_topic.as_str()).as_str().is_empty();
        let discovery = d.requires_discovery && !blank;
        let holdings = d.companies.len() == 0 && !discovery && self.profile.holdings.is_some();
        let targets: Vec<String> = if holdings {
            match &self.profile.holdings {
                Some(h) => copy_strings(h),
                None => Vec::new(),
            }
        } else {
            copy_strings(&d.companies)
        };
        let topic = if discovery {
            d.discovery_topic.clone()
        } else {
            String::new()
        };
        let plan = QueryPlan::from_decision(d);
        let mut n: Vec<Notice> = Vec::new();
        n.push(Notice::Plan(plan));
        match intent {
            QueryIntent::OutOfScope => {
                n.push(trace("🛡️ Guardrail del Router: consulta fuera del dominio financiero."));
                assert(notices_view(n@) =~= follow_decision(old(self)@, g).1);
                self.reply(copy_str(OUT_OF_SCOPE_RESPONSE), n)
            },
            QueryIntent::Educational => {
                self.phase = Phase::Informing;
                n.push(stage("Informer", 3, 4));
                n.push(trace("🎓 Iniciando flujo EDUCATIVO..."));
                n.push(trace("💡 Agente Informer: Generando respuesta..."));
                assert(notices_view(n@) =~= follow_decision(old(self)@, g).1);
                (n, Command::Inform)
            },
            QueryIntent::Investigation => {
                self.phase = Phase::Researching;
                n.push(trace("🔍 Iniciando flujo de INVESTIGACIÓN..."));
                if holdings {
                    n.push(trace("Utilizando empresas del perfil para investigación."));
                }
                n.push(Notice::Targets(copy_strings(&targets)));
                n.push(stage("NewsSearcher", 3, 5));
                n.push(trace("📰 Agente NewsSearcher: Procesando noticias..."));
                assert(notices_view(n@) =~= follow_decision(old(self)@, g).1);
                (
                    n,
                    Command::Research {
                        companies: targets,
                        requires_discovery: discovery,
                        discovery_topic: topic,
                    },
                )
            },
        }
    }

    /// Takes in the outcome of the last command and gives the progress to
    /// report and the next command.
    pub fn step(&mut self, outcome: Outcome) -> (r: (Vec<Notice>, Command))
        requires
            run_wf(old(self)@),
            fits(old(self)@.phase, outcome),
        ensures
            run_wf(final(self)@),
            final(self)@ == transition(old(self)@, outcome).0,
            notices_view(r.0@) == transition(old(self)@, outcome).1,
            r.1@ == transition(old(self)@, outcome).2,
    {
        let ghost o = outcome;
        match outcome {
            Outcome::Failed(m) => self.fail(m),
            Outcome::Saved => {
                match self.phase {
                    Phase::SavingQuery => {
                        if is_obviously_out_of_scope(self.query.as_str()) {
                            let mut n: Vec<Notice> = Vec::new();
                            n.push(
                                trace(
                                    "🛡️ Guardrail: consulta fuera del dominio financiero; se bloquea el flujo de agentes.",
                                ),
                            );
                            self.reply(copy_str(OUT_OF_SCOPE_RESPONSE), n)
                        } else {
                            self.phase = Phase::Loading;
                            let n: Vec<Notice> = Vec::new();
                            assert(notices_view(n@) =~= Seq::<NoticeView>::empty());
                            (n, Command::Load)
                        }
                    },
                    Phase::SavingProfile => {
                        if !self.profile.is_complete {
                            self.phase = Phase::AskingProfile;
                            let mut n: Vec<Notice> = Vec::new();
                            n.push(trace("🧩 Agente Perfil: Solicitando información al usuario..."));
                            assert(notices_view(n@) =~= transition(old(self)@, o).1);
                            (n, Command::AskProfile)
                        } else {
                            self.start_routing()
                        }
                    },
                    _ => {
                        self.phase = Phase::Done;
                        let n: Vec<Notice> = Vec::new();
                        assert(notices_view(n@) =~= Seq::<NoticeView>::empty());
                        (n, Command::Finish(Ok(self.reply.clone())))
                    },
                }
            },
            Outcome::Loaded { messages, profile } => {
                let long = messages.len() > CONTEXT_LIMIT;
                self.messages = messages;
                self.profile = profile;
                if long {
                    self.phase = Phase::Summarizing;
                    let mut n: Vec<Notice> = Vec::new();
                    n.push(trace("Comprimiendo contexto (>10 mensajes)..."));
                    assert(notices_view(n@) =~= transition(old(self)@, o).1);
                    (n, Command::Summarize)
                } else {
                    self.check_profile()
                }
            },
            Outcome::Summary { text, id, created_at } => {
                let ghost before = self.messages@;
                let len = self.messages.len();
                assert(messages_view(before).len() == before.len());
                let conversation_id = self.messages[0].conversation_id;
                let recent = self.messages.split_off(len - 2);
                let mut m: Vec<Message> = Vec::new();
                m.push(
                    Message {
                        id,
                        conversation_id,
                        role: Role::System,
                        content: concat("Resumen de la conversación previa: ", text.as_str()),
                        created_at,
                        thinking: None,
                    },
                );
                let mut recent = recent;
                m.append(&mut recent);
                self.messages = m;
                assert(messages_view(self.messages@) =~= seq![
                    summary_message(conversation_id, text@, id, created_at),
                ] + messages_view(before).subrange(len - 2, len as int));
                self.check_profile()
            },
            Outcome::ProfileUpdated(p) => {
                self.phase = Phase::SavingProfile;
                self.profile = p;
                let n: Vec<Notice> = Vec::new();
                assert(notices_view(n@) =~= Seq::<NoticeView>::empty());
                (n, Command::SaveProfile)
            },
            Outcome::ProfileReply(r) => match r {
                Some(t) => {
                    let n: Vec<Notice> = Vec::new();
                    assert(notices_view(n@) =~= Seq::<NoticeView>::empty());
                    self.reply(t, n)
                },
                None => self.fail(copy_str("El agente de perfil no pudo producir texto.")),
            },
            Outcome::Routed(a) => match a {
                RouteAnswer::Decision(d) => self.follow(d),
                RouteAnswer::Malformed(json) => {
                    let excerpt = truncate_for_trace(json.as_str());
                    self.fail(
                        concat(
                            "La respuesta del Router no cumple el esquema de ruta esperado. JSON recibido: ",
                            excerpt.as_str(),
                        ),
                    )
                },
                RouteAnswer::Unstructured => self.fail(
                    copy_str("El Router no produjo una decisión estructurada."),
                ),
            },
            Outcome::Researched => {
                self.phase = Phase::FetchingPrices;
                let mut n: Vec<Notice> = Vec::new();
                n.push(stage("MarketData", 4, 5));
                n.push(trace("📊 Agente StockData: Extrayendo precios históricos..."));
                assert(notices_view(n@) =~= transition(old(self)@, o).1);
                (n, Command::FetchPrices)
            },
            Outcome::PricesFetched => {
                self.phase = Phase::FormattingReport;
                let mut n: Vec<Notice> = Vec::new();
                n.push(stage("Formatter", 5, 5));
                n.push(trace("📝 Agente Formatter: Generando reporte ejecutivo..."));
                assert(notices_view(n@) =~= transition(old(self)@, o).1);
                (n, Command::FormatReport)
            },
            Outcome::Written(w) => {
                match self.phase {
                    Phase::FormattingReport => {
                        let body = match w {
                            Some(t) => t,
                            None => copy_str(
                                "Investigación completada pero falló el formateo de los resultados.",
                            ),
                        };
                        let n: Vec<Notice> = Vec::new();
                        assert(notices_view(n@) =~= Seq::<NoticeView>::empty());
                        self.reply(concat(body.as_str(), FINANCIAL_DISCLAIMER), n)
                    },
                    Phase::Informing => {
                        self.phase = Phase::FormattingLesson;
                        let text = match w {
                            Some(t) => t,
                            None => String::new(),
                        };
                        let mut n: Vec<Notice> = Vec::new();
                        n.push(stage("Formatter", 4, 4));
                        n.push(trace("📝 Agente Formatter: Estilizando respuesta..."));
                        assert(notices_view(n@) =~= transition(old(self)@, o).1);
                        (n, Command::FormatLesson(text))
                    },
                    _ => {
                        match w {
                            Some(t) => {
                                let mut n: Vec<Notice> = Vec::new();
                                n.push(trace("✅ Flujo completado."));
                                assert(notices_view(n@) =~= seq![
                                    NoticeView::Trace("✅ Flujo completado."@),
                                ]);
                                self.reply(concat(t.as_str(), FINANCIAL_DISCLAIMER), n)
                            },
                            None => {
                                let n: Vec<Notice> = Vec::new();
                                assert(notices_view(n@) =~= Seq::<NoticeView>::empty());
                                self.reply(
                                    concat("Educational response failed.", FINANCIAL_DISCLAIMER),
                                    n,
                                )
                            },
                        }
                    },
                }
            },
        }
    }
}


// ---------------------------------------------------------------------------
// Laws of the pipeline
// ---------------------------------------------------------------------------
/// Every step moves the run to a later phase, so a run ends after at most
/// thirteen steps.
pub proof fn lemma_every_step_advances(run: RunView, outcome: Outcome)
    requires
        fits(run.phase, outcome),
    ensures
        rank(transition(run, outcome).0.phase) > rank(run.phase),
{
}

/// A query the guardrail blocks is answered with the out-of-scope reply,
/// and no agent is consulted: storing the query leads to storing that reply,
/// and storing the reply ends the run with it.
pub proof fn lemma_guardrail_answers_without_agents(run: RunView)
    requires
        run.phase == Phase::SavingQuery,
        out_of_scope(run.query),
    ensures
        transition(run, Outcome::Saved).2 == CommandView::SaveReply(OUT_OF_SCOPE_RESPONSE@),
        transition(transition(run, Outcome::Saved).0, Outcome::Saved).2 == CommandView::Finish(
            Ok(OUT_OF_SCOPE_RESPONSE@),
        ),
{
}

/// A query the guardrail lets through goes on to read the conversation.
pub proof fn lemma_guardrail_lets_finance_through(run: RunView)
    requires
        run.phase == Phase::SavingQuery,
        !out_of_scope(run.query),
    ensures
        transition(run, Outcome::Saved).2 == CommandView::Load,
{
}

/// Every answer composed by the agents ends with the disclaimer.
pub proof fn lemma_agent_answers_carry_disclaimer(run: RunView, w: Option<String>)
    requires
        run.phase == Phase::FormattingReport || run.phase == Phase::FormattingLesson,
    ensures
        transition(run, Outcome::Written(w)).2 matches CommandView::SaveReply(c) && exists|
            body: Seq<char>,
        | c == body + FINANCIAL_DISCLAIMER@,
{
    let c = match transition(run, Outcome::Written(w)).2 {
        CommandView::SaveReply(c) => c,
        _ => Seq::empty(),
    };
    let body = c.subrange(0, c.len() - FINANCIAL_DISCLAIMER@.len());
    let b = match w {
        Some(t) => t@,
        None => if run.phase == Phase::FormattingReport {
            "Investigación completada pero falló el formateo de los resultados."@
        } else {
            "Educational response failed."@
        },
    };
    assert(c == b + FINANCIAL_DISCLAIMER@);
    assert(body =~= b);
}

/// The answer a run ends with is the reply it stored last.
pub proof fn lemma_answer_is_stored_reply(run: RunView, outcome: Outcome)
    requires
        fits(run.phase, outcome),
    ensures
        transition(run, outcome).2 matches CommandView::SaveReply(c) ==> transition(
            run,
            outcome,
        ).0.phase == Phase::SavingReply && transition(run, outcome).0.reply == c,
        run.phase == Phase::SavingReply && outcome is Saved ==> transition(run, outcome).2
            == CommandView::Finish(Ok(run.reply)),
{
}

/// A failed command ends the run with its error.
pub proof fn lemma_failure_ends_run(run: RunView, message: String)
    requires
        run.phase != Phase::Done,
    ensures
        transition(run, Outcome::Failed(message)).0.phase == Phase::Done,
        transition(run, Outcome::Failed(message)).2 == CommandView::Finish(Err(message@)),
{
}

/// An investigation that names no companies and asks for no discovery
/// researches the user's holdings when the profile lists some, saying so;
/// one with a discovery topic researches the companies it names and the
/// topic; one that names companies without a topic researches those.
pub proof fn lemma_investigation_targets(run: RunView, d: RouteDecision)
    requires
        run.phase == Phase::Routing,
        d.intent == QueryIntent::Investigation,
    ensures
        ({
            let next = transition(run, Outcome::Routed(RouteAnswer::Decision(d)));
            let topic = d.requires_discovery && trim(d.discovery_topic@).len() > 0;
            &&& (d.companies@.len() == 0 && !topic && run.profile.holdings is Some) ==> {
                &&& next.2 == CommandView::Research(
                    strings_view(run.profile.holdings.unwrap()@),
                    false,
                    Seq::empty(),
                )
                &&& next.1[2] == NoticeView::Trace(
                    "Utilizando empresas del perfil para investigación."@,
                )
            }
            &&& topic ==> next.2 == CommandView::Research(
                strings_view(d.companies@),
                true,
                d.discovery_topic@,
            )
            &&& (!topic && (d.companies@.len() > 0 || run.profile.holdings is None)) ==> next.2
                == CommandView::Research(strings_view(d.companies@), false, Seq::empty())
            &&& next.0.phase == Phase::Researching
        }),
{
}

/// The guardrail is blind to ASCII case: a query, its lower-case form and
/// its upper-case form are all blocked or all let through.
pub proof fn lemma_guardrail_ignores_case(query: Seq<char>)
    ensures
        out_of_scope(lower(query)) == out_of_scope(query),
        out_of_scope(upper(query)) == out_of_scope(query),
{
    lemma_trim_lower(query);
    lemma_lower_idempotent(trim(query));
    lemma_trim_upper(query);
    lemma_lower_upper(trim(query));
}

/// The router is consulted only once the profile is complete.
pub proof fn lemma_routing_needs_complete_profile(run: RunView, outcome: Outcome)
    requires
        fits(run.phase, outcome),
    ensures
        transition(run, outcome).2 == CommandView::Route ==> transition(
            run,
            outcome,
        ).0.profile.is_complete,
{
}

/// Compressing a long conversation leaves three messages: the summary of
/// all but the last two, then those two in order.
pub proof fn lemma_summary_keeps_last_two(run: RunView, text: String, id: u128, created_at: Timestamp)
    requires
        run_wf(run),
        run.phase == Phase::Summarizing,
    ensures
        ({
            let after = transition(run, Outcome::Summary { text, id, created_at }).0;
            &&& after.messages.len() == 3
            &&& after.messages[0] == summary_message(
                run.messages[0].conversation_id,
                text@,
                id,
                created_at,
            )
            &&& after.messages[1] == run.messages[run.messages.len() - 2]
            &&& after.messages[2] == run.messages[run.messages.len() - 1]
        }),
{
}


// ---------------------------------------------------------------------------
// The bookkeeping of a run
// ---------------------------------------------------------------------------
/// The error of a cancelled run.
pub const CANCELLED_MESSAGE: &'static str = "La ejecución fue cancelada.";

/// The error of a run that outlived `MAX_RUN_SECS`.
pub fn timeout_message() -> (m: String)
    ensures
        m@ == "La ejecución superó el límite de 300s."@,
{
    copy_str("La ejecución superó el límite de 300s.")
}

/// The event reporting that a run failed: a run that timed out can always
/// be retried; otherwise the error message decides.
pub fn run_failed(run_id: u128, conversation_id: u128, message: String, timed_out: bool) -> (e:
    RunEvent)
    ensures
        e matches RunEvent::Failed { run_id: r, conversation_id: c, message: m, retryable } && r
            == run_id && c == conversation_id && m@ == message@ && retryable == (timed_out
            || retryable_message(message@)),
{
    let retryable = timed_out || is_retryable_error(message.as_str());
    RunEvent::Failed { run_id, conversation_id, message, retryable }
}

} // verus!
