use stock_agent::agents::investigation::{research_targets, LookupPhase, LookupStep, PriceLookup};
use stock_agent::agents::{agent_trace, chat_history, parse_llm_json, truncate_response};
use stock_agent::events::TokenUsage;
use stock_agent::market_data::{
    closest_point, history_from_chart, is_retryable_market_status, market_retry_delay,
    normalize_ticker, retry_decision, truncate_for_error, MarketDataError, PriceCache,
    RequestFailure, YahooApiError, YahooChart, YahooChartResult, YahooIndicators, YahooMeta,
    YahooQuote,
};
use stock_agent::models::{
    nullable_bool, nullable_string, nullable_strings, JsonField, Message, PriceHistory, PricePoint,
    QueryIntent, QueryPlan, Role, RouteDecision, Timestamp,
};
use stock_agent::ollama;
use stock_agent::orchestrator::{
    is_retryable_error, truncate_for_trace, Command, Outcome, Phase, QueryRun,
    OUT_OF_SCOPE_RESPONSE,
};
use stock_agent::storage::{role_from_db, role_to_db};

fn history(currency: &str) -> PriceHistory {
    PriceHistory {
        today: Some(PricePoint { price_bits: 42.0f64.to_bits(), as_of: 1_700_000_000 }),
        one_week: None,
        one_year: None,
        currency: currency.to_string(),
        exchange: None,
        source_url: "https://example.test".to_string(),
    }
}

fn message(role: Role, content: &str) -> Message {
    Message {
        id: 1,
        conversation_id: 7,
        role,
        content: content.to_string(),
        created_at: Timestamp { secs: 0, nanos: 0 },
        thinking: None,
    }
}

#[test]
fn ticker_is_trimmed_and_upper_cased() {
    assert_eq!(normalize_ticker("  brk.b ").ok(), Some("BRK.B".to_string()));
    assert_eq!(normalize_ticker("^gspc").ok(), Some("^GSPC".to_string()));
    assert_eq!(normalize_ticker("7203.t").ok(), Some("7203.T".to_string()));
}

#[test]
fn ticker_rejects_blank_long_and_odd_symbols() {
    match normalize_ticker("   ") {
        Err(MarketDataError::InvalidTicker(v)) => assert_eq!(v, "   "),
        _ => panic!("a blank ticker is invalid"),
    }
    assert!(normalize_ticker("ABCDEFGHIJKLMNOPQRSTU").is_err());
    assert!(normalize_ticker("ABCDEFGHIJKLMNOPQRST").is_ok());
    assert!(normalize_ticker("AA PL").is_err());
    assert_eq!(
        normalize_ticker("a$b").err().map(|e| e.message()),
        Some("Invalid ticker symbol: a$b".to_string())
    );
}

#[test]
fn market_error_messages_name_their_cause() {
    assert_eq!(
        MarketDataError::ChartUnavailable("down".to_string()).message(),
        "Market-data provider error: down"
    );
    assert_eq!(
        MarketDataError::NoValidPrices.message(),
        "Market-data provider returned no valid prices"
    );
    assert_eq!(
        MarketDataError::NoHistory("no_data".to_string()).message(),
        "Finnhub returned no historical data: no_data"
    );
    assert_eq!(
        MarketDataError::NoCurrentPrice.message(),
        "Finnhub returned no valid current price"
    );
}

#[test]
fn chart_without_result_reports_the_provider_error() {
    let chart = YahooChart {
        result: None,
        error: Some(YahooApiError { description: Some("Not Found".to_string()) }),
    };
    match history_from_chart(chart, "u") {
        Some(Err(MarketDataError::ChartUnavailable(d))) => assert_eq!(d, "Not Found"),
        _ => panic!("a chart without result is an error"),
    }
    let empty = YahooChart { result: Some(Vec::new()), error: None };
    match history_from_chart(empty, "u") {
        Some(Err(MarketDataError::ChartUnavailable(d))) => {
            assert_eq!(d, "No chart data was returned")
        }
        _ => panic!("an empty result list is an error"),
    }
}

fn chart_with(times: Vec<i64>, closes: Vec<Option<u64>>, price: Option<f64>, time: Option<i64>) -> YahooChart {
    YahooChart {
        result: Some(vec![YahooChartResult {
            meta: YahooMeta {
                currency: None,
                exchange_name: None,
                regular_market_price: price.map(f64::to_bits),
                regular_market_time: time,
            },
            timestamp: Some(times),
            indicators: YahooIndicators { quote: vec![YahooQuote { close: Some(closes) }] },
        }]),
        error: None,
    }
}

#[test]
fn chart_without_valid_prices_is_an_error() {
    let chart = chart_with(
        vec![1, 2],
        vec![None, Some(f64::NAN.to_bits())],
        None,
        None,
    );
    assert!(matches!(
        history_from_chart(chart, "u"),
        Some(Err(MarketDataError::NoValidPrices))
    ));
}

#[test]
fn chart_history_picks_closest_week_and_year_points() {
    let now: i64 = 1_735_689_600;
    let chart = chart_with(
        vec![now, now - 604_800 - 100, now - 31_536_000 + 50, now - 604_800 + 10],
        vec![
            Some(125.0f64.to_bits()),
            Some(111.0f64.to_bits()),
            Some(90.0f64.to_bits()),
            Some(112.0f64.to_bits()),
        ],
        None,
        None,
    );
    let h = match history_from_chart(chart, "u") {
        Some(Ok(h)) => h,
        _ => panic!("prices are present"),
    };
    assert_eq!(h.currency, "UNKNOWN");
    assert_eq!(h.today.map(|p| f64::from_bits(p.price_bits)), Some(125.0));
    assert_eq!(h.one_week.map(|p| f64::from_bits(p.price_bits)), Some(112.0));
    assert_eq!(h.one_year.map(|p| f64::from_bits(p.price_bits)), Some(90.0));
}

#[test]
fn chart_points_outside_the_calendar_are_skipped() {
    let far: i64 = i64::MAX / 2;
    let chart = chart_with(vec![far], vec![Some(1.0f64.to_bits())], None, None);
    assert!(matches!(
        history_from_chart(chart, "u"),
        Some(Err(MarketDataError::NoValidPrices))
    ));
}

#[test]
fn chart_at_the_calendar_start_has_no_lookback() {
    let first = chrono::DateTime::<chrono::Utc>::MIN_UTC.timestamp();
    let chart = chart_with(vec![first], vec![Some(1.0f64.to_bits())], None, None);
    assert!(history_from_chart(chart, "u").is_none());
}

#[test]
fn closest_point_prefers_the_first_of_equal_distances() {
    let points = vec![
        PricePoint { price_bits: 1, as_of: 10 },
        PricePoint { price_bits: 2, as_of: 30 },
        PricePoint { price_bits: 3, as_of: 50 },
    ];
    assert_eq!(closest_point(&points, 20).map(|p| p.price_bits), Some(1));
    assert_eq!(closest_point(&points, 41).map(|p| p.price_bits), Some(3));
    assert_eq!(closest_point(&[], 41), None);
}

#[test]
fn retry_delay_doubles_from_a_quarter_second() {
    assert_eq!(market_retry_delay(0), 250);
    assert_eq!(market_retry_delay(1), 500);
    assert_eq!(market_retry_delay(3), 2000);
}

#[test]
fn retry_only_transient_failures_of_the_first_two_attempts() {
    assert!(is_retryable_market_status(429));
    assert!(is_retryable_market_status(503));
    assert!(!is_retryable_market_status(404));
    assert_eq!(retry_decision(0, RequestFailure::Status(500)), Some(250));
    assert_eq!(retry_decision(1, RequestFailure::Transport { transient: true }), Some(500));
    assert_eq!(retry_decision(2, RequestFailure::Status(500)), None);
    assert_eq!(retry_decision(0, RequestFailure::Status(404)), None);
    assert_eq!(retry_decision(0, RequestFailure::Transport { transient: false }), None);
}

#[test]
fn error_excerpts_are_cut_at_two_thousand_characters() {
    let long = "é".repeat(2500);
    assert_eq!(truncate_for_error(&long).chars().count(), 2000);
    assert_eq!(truncate_for_error("short"), "short");
    assert_eq!(truncate_response(&long).chars().count(), 2000);
    let ascii = "x".repeat(2100);
    assert_eq!(ollama::truncate_for_error(&ascii), format!("{}…", "x".repeat(2000)));
    assert_eq!(ollama::truncate_for_error("short"), "short");
}

#[test]
fn trace_excerpts_are_cut_with_an_ellipsis() {
    let long = "a".repeat(1600);
    let cut = truncate_for_trace(&long);
    assert_eq!(cut.chars().count(), 1501);
    assert!(cut.ends_with('…'));
    assert_eq!(truncate_for_trace("corto"), "corto");
}

#[test]
fn transient_errors_are_retryable() {
    assert!(is_retryable_error("Request TIMED OUT after 30s"));
    assert!(is_retryable_error("Ollama returned 503 Service Unavailable"));
    assert!(is_retryable_error("Finnhub API error 502"));
    assert!(!is_retryable_error("Invalid ticker symbol: $$"));
}

#[test]
fn roles_round_trip_through_storage() {
    for role in [Role::System, Role::User, Role::Assistant, Role::Tool] {
        assert_eq!(role_from_db(role_to_db(&role)).ok(), Some(role));
    }
    match role_from_db("robot") {
        Err(e) => assert_eq!(e.message(), "Unknown message role in storage: robot"),
        Ok(_) => panic!("an unknown role is an error"),
    }
}

#[test]
fn cache_serves_fresh_history_for_the_normalised_ticker() {
    let mut cache = PriceCache::new();
    let key = normalize_ticker("aapl").ok().unwrap();
    cache.store(key, history("USD"), 1_000);
    let again = normalize_ticker("AAPL").ok().unwrap();
    assert_eq!(cache.fresh(&again, 1_050, 60).map(|h| h.currency), Some("USD".to_string()));
    assert!(cache.fresh(&again, 1_060, 60).is_none());
    assert!(cache.fresh("MSFT", 1_050, 60).is_none());
    cache.store("AAPL".to_string(), history("EUR"), 2_000);
    assert_eq!(cache.fresh("AAPL", 2_000, 60).map(|h| h.currency), Some("EUR".to_string()));
}

#[test]
fn json_is_found_in_fences_and_after_prose() {
    let fenced = "Texto\n```JSON\n[1, 2]\n```";
    let v = parse_llm_json(fenced).ok().expect("fenced JSON");
    assert_eq!(v.as_array().map(|a| a.len()), Some(2));
    let prose = "nada útil {\"a\": true} y más";
    let v = parse_llm_json(prose).ok().expect("JSON after prose");
    assert_eq!(v["a"].as_bool(), Some(true));
}

#[test]
fn json_absence_is_reported_with_the_answer() {
    match parse_llm_json("sin datos") {
        Err(e) => {
            assert_eq!(e.excerpt, "sin datos");
            assert_eq!(e.message(), "No valid JSON value found in LLM response: sin datos");
        }
        Ok(_) => panic!("there is no JSON"),
    }
}

#[test]
fn chat_history_keeps_the_latest_messages_under_role_names() {
    let msgs = vec![
        message(Role::User, "uno"),
        message(Role::Assistant, "dos"),
        message(Role::User, "tres"),
    ];
    let chat = chat_history("sistema", &msgs, Some(2));
    assert_eq!(chat.len(), 3);
    assert_eq!(chat[0].role, "system");
    assert_eq!(chat[0].content, "sistema");
    assert_eq!(chat[1].role, "assistant");
    assert_eq!(chat[1].content, "dos");
    assert_eq!(chat[2].role, "user");
    assert_eq!(chat[2].content, "tres");
    assert_eq!(chat_history("s", &msgs, None).len(), 4);
}

#[test]
fn agent_traces_carry_clock_and_name() {
    assert_eq!(agent_trace("10:00:00", "Router", "hola"), "[10:00:00] Router: hola");
}

#[test]
fn research_targets_are_sorted_distinct_and_at_most_five() {
    let named = vec!["MSFT".to_string(), "AAPL".to_string(), "MSFT".to_string()];
    let found = vec!["NVDA".to_string(), "AMD".to_string(), "TSLA".to_string(), "INTC".to_string()];
    let t = research_targets(named, found);
    assert_eq!(t, vec!["AAPL", "AMD", "INTC", "MSFT", "NVDA"]);
    assert_eq!(research_targets(Vec::new(), Vec::new()), Vec::<String>::new());
}

#[test]
fn token_usage_adds_and_saturates() {
    let mut u = TokenUsage::from_counts(Some(10), None);
    u.add_assign(&TokenUsage::from_counts(Some(5), Some(7)));
    assert_eq!(u.prompt_tokens, 15);
    assert_eq!(u.completion_tokens, 7);
    assert_eq!(u.total(), 22);
    let big = TokenUsage::from_counts(Some(u64::MAX), Some(1));
    assert_eq!(big.total(), u64::MAX);
    assert!(TokenUsage::reportable(None, Some(0)).is_none());
    assert_eq!(TokenUsage::reportable(Some(3), None).map(|u| u.total()), Some(3));
}

#[test]
fn intent_labels_are_trimmed_and_case_blind() {
    assert_eq!(QueryIntent::from_label(" Educational ").ok(), Some(QueryIntent::Educational));
    assert_eq!(QueryIntent::from_label("OutOfScope").ok(), Some(QueryIntent::OutOfScope));
    assert_eq!(QueryIntent::from_label(" Otra ").err(), Some("otra".to_string()));
}

#[test]
fn route_fields_accept_a_single_company_and_reject_bad_types() {
    assert_eq!(
        nullable_strings(&JsonField::Text("AAPL".to_string())).ok(),
        Some(vec!["AAPL".to_string()])
    );
    assert_eq!(
        nullable_strings(&JsonField::List(vec![Some("A".to_string()), None])).err(),
        Some("company tickers must be strings".to_string())
    );
    assert_eq!(
        nullable_strings(&JsonField::Bool(true)).err(),
        Some("companies must be an array of strings or a string".to_string())
    );
    assert_eq!(nullable_bool(&JsonField::Missing), Some(false));
    assert_eq!(nullable_bool(&JsonField::Text("yes".to_string())), None);
    assert_eq!(nullable_string(&JsonField::Null), Some(String::new()));
    assert!(RouteDecision::from_fields(
        &JsonField::Text("weather".to_string()),
        &JsonField::Missing,
        &JsonField::Missing,
        &JsonField::Missing,
    )
    .is_none());
}

#[test]
fn plan_searches_a_topic_only_when_asked_and_not_blank() {
    let d = RouteDecision {
        intent: QueryIntent::Investigation,
        companies: vec!["AAPL".to_string()],
        requires_discovery: true,
        discovery_topic: "  ".to_string(),
    };
    match QueryPlan::from_decision(d) {
        QueryPlan::Investigation { companies, discovery_topic } => {
            assert_eq!(companies, vec!["AAPL".to_string()]);
            assert!(discovery_topic.is_none());
        }
        _ => panic!("an investigation stays an investigation"),
    }
    let d = RouteDecision {
        intent: QueryIntent::Investigation,
        companies: Vec::new(),
        requires_discovery: true,
        discovery_topic: "litio".to_string(),
    };
    match QueryPlan::from_decision(d) {
        QueryPlan::Investigation { discovery_topic, .. } => {
            assert_eq!(discovery_topic, Some("litio".to_string()))
        }
        _ => panic!("an investigation stays an investigation"),
    }
}

#[test]
fn out_of_scope_query_is_answered_without_agents() {
    let (mut run, notices, command) = QueryRun::new("¿Cómo preparo una pizza?".to_string());
    assert_eq!(notices.len(), 1);
    assert!(matches!(command, Command::SaveQuery(ref q) if q == "¿Cómo preparo una pizza?"));
    let (_, command) = run.step(Outcome::Saved);
    match command {
        Command::SaveReply(text) => assert_eq!(text, OUT_OF_SCOPE_RESPONSE),
        _ => panic!("the guardrail answers at once"),
    }
    assert_eq!(run.phase(), Phase::SavingReply);
    let (_, command) = run.step(Outcome::Saved);
    match command {
        Command::Finish(Ok(text)) => assert_eq!(text, OUT_OF_SCOPE_RESPONSE),
        _ => panic!("the run ends with the stored reply"),
    }
    assert_eq!(run.phase(), Phase::Done);
}

#[test]
fn financial_query_loads_the_conversation_and_fails_cleanly() {
    let (mut run, _, _) = QueryRun::new("¿Qué es un ETF?".to_string());
    let (_, command) = run.step(Outcome::Saved);
    assert!(matches!(command, Command::Load));
    let (_, command) = run.step(Outcome::Failed("sin base de datos".to_string()));
    match command {
        Command::Finish(Err(e)) => assert_eq!(e, "sin base de datos"),
        _ => panic!("a failure ends the run"),
    }
    assert_eq!(run.phase(), Phase::Done);
}

#[test]
fn long_conversations_are_summarised_down_to_the_last_two_messages() {
    let (mut run, _, _) = QueryRun::new("¿Cómo va mi cartera?".to_string());
    let (_, command) = run.step(Outcome::Saved);
    assert!(matches!(command, Command::Load));
    let messages: Vec<Message> = (0..12)
        .map(|i| message(if i % 2 == 0 { Role::User } else { Role::Assistant }, &format!("m{i}")))
        .collect();
    let (notices, command) =
        run.step(Outcome::Loaded { messages, profile: stock_agent::models::UserProfile::default() });
    assert_eq!(notices.len(), 1);
    assert!(matches!(command, Command::Summarize));
    let chat = run.messages_to_summarize();
    assert_eq!(chat.len(), 10);
    assert_eq!(chat[0].role, "user");
    assert_eq!(chat[9].content, "m9");
    let (_, command) = run.step(Outcome::Summary {
        text: "resumen".to_string(),
        id: 99,
        created_at: Timestamp { secs: 5, nanos: 0 },
    });
    assert!(matches!(command, Command::UpdateProfile));
    let kept = run.messages();
    assert_eq!(kept.len(), 3);
    assert_eq!(kept[0].role, Role::System);
    assert_eq!(kept[0].content, "Resumen de la conversación previa: resumen");
    assert_eq!(kept[1].content, "m10");
    assert_eq!(kept[2].content, "m11");
}

#[test]
fn json_comes_from_the_first_candidate_that_holds_it() {
    let answer = "Mira:\n```json\n{\"a\": 1}\n```\ny también {\"a\": 2}";
    let v = parse_llm_json(answer).ok().expect("the fenced block holds JSON");
    assert_eq!(v["a"].as_i64(), Some(1));
}

fn research(ticker: &str) -> stock_agent::models::StockAction {
    stock_agent::models::StockAction {
        company: "Apple".to_string(),
        ticker: ticker.to_string(),
        sentiment: "mixed".to_string(),
        reasoning: "evidencia".to_string(),
        catalysts: vec!["lanzamiento".to_string()],
        risks: vec!["competencia".to_string()],
        sources: None,
        prices: None,
    }
}

#[test]
fn price_search_keeps_the_research_and_adds_one_risk_on_give_up() {
    let (mut lookup, _, step) = PriceLookup::start(research(" aapl "));
    assert!(matches!(step, LookupStep::Fetch(ref t) if t == "AAPL"));
    let (_, step) = lookup.on_fetch(Err("404".to_string()));
    assert!(matches!(step, LookupStep::Resolve { .. }));
    let (traces, step) = lookup.on_resolve(Ok(vec!["AAPL".to_string(), "$$".to_string()]));
    assert!(traces.is_empty());
    assert!(matches!(step, LookupStep::Done));
    assert_eq!(lookup.phase(), LookupPhase::Done);
    let a = lookup.into_action();
    assert_eq!(a.ticker, "AAPL");
    assert_eq!(a.reasoning, "evidencia");
    assert_eq!(a.catalysts, vec!["lanzamiento".to_string()]);
    assert_eq!(
        a.risks,
        vec![
            "competencia".to_string(),
            "No se pudieron verificar los precios de mercado: 404".to_string()
        ]
    );
}

#[test]
fn price_search_takes_the_first_working_alternative_symbol() {
    let (mut lookup, _, _) = PriceLookup::start(research("7203"));
    let _ = lookup.on_fetch(Err("not found".to_string()));
    let (_, step) = lookup.on_resolve(Ok(vec!["7203".to_string(), "7203.t".to_string()]));
    assert!(matches!(step, LookupStep::Fetch(ref t) if t == "7203.T"));
    let (_, step) = lookup.on_fetch(Ok(history("JPY")));
    assert!(matches!(step, LookupStep::Done));
    let a = lookup.into_action();
    assert_eq!(a.ticker, "7203.T");
    assert_eq!(a.prices.map(|h| h.currency), Some("JPY".to_string()));
    assert_eq!(a.risks, vec!["competencia".to_string()]);
    assert_eq!(a.sentiment, "mixed");
}
