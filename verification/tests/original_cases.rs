use stock_agent::agents::parse_llm_json;
use stock_agent::market_data::{
    build_finnhub_price_history, history_from_chart, normalize_ticker, FinnhubCandle,
    FinnhubProfile, FinnhubQuote, YahooChart, YahooChartResult, YahooIndicators, YahooMeta,
    YahooQuote,
};
use stock_agent::models::{JsonField, QueryIntent, RouteDecision};
use stock_agent::orchestrator::is_obviously_out_of_scope;

#[test]
fn normalize_ticker_should_reject_unsafe_symbols() {
    assert!(normalize_ticker("AAPL").is_ok());
    assert!(normalize_ticker("AAPL/../../secret").is_err());
}

#[test]
fn guardrail_should_block_obvious_cooking_queries() {
    assert!(is_obviously_out_of_scope("¿Cómo preparo una pizza?"));
}

#[test]
fn guardrail_should_allow_financial_queries() {
    assert!(!is_obviously_out_of_scope("¿Qué riesgos tiene invertir en un ETF?"));
    assert!(!is_obviously_out_of_scope(
        "¿Qué perspectivas tiene Pizza Pizza como acción?"
    ));
}

#[test]
fn parse_clean_json() {
    let input = r#"{"name": "test", "value": 42}"#;
    let parsed = parse_llm_json(input).ok().expect("clean JSON should parse");
    assert_eq!(parsed["name"].as_str(), Some("test"));
    assert_eq!(parsed["value"].as_i64(), Some(42));
}

#[test]
fn parse_json_with_markdown_block() {
    let input =
        "Aquí está el JSON:\n```json\n{\"name\": \"test\", \"value\": 42}\n```\nEspero que sirva.";
    let parsed = parse_llm_json(input).ok().expect("JSON code block should parse");
    assert_eq!(parsed["name"].as_str(), Some("test"));
    assert_eq!(parsed["value"].as_i64(), Some(42));
}

#[test]
fn parse_json_array() {
    let input = "Resultados: [\"A\", \"B\", \"C\"]";
    let parsed = parse_llm_json(input).ok().expect("JSON array should parse");
    let items: Vec<String> = parsed
        .as_array()
        .expect("JSON array should parse")
        .iter()
        .map(|v| v.as_str().unwrap_or_default().to_string())
        .collect();
    assert_eq!(items, vec!["A".to_string(), "B".to_string(), "C".to_string()]);
}

#[test]
fn parse_json_with_braces_inside_string() {
    let input = r#"Respuesta: {"name":"{quoted}","value":42}"#;
    let parsed = parse_llm_json(input).ok().expect("braces inside strings should parse");
    assert_eq!(parsed["name"].as_str(), Some("{quoted}"));
}

#[test]
fn parse_chart_response_should_preserve_market_metadata() {
    let chart = YahooChart {
        result: Some(vec![YahooChartResult {
            meta: YahooMeta {
                currency: Some("USD".to_string()),
                exchange_name: Some("NMS".to_string()),
                regular_market_price: Some(125.5f64.to_bits()),
                regular_market_time: Some(1735689600),
            },
            timestamp: Some(vec![1704067200, 1704672000, 1735689600]),
            indicators: YahooIndicators {
                quote: vec![YahooQuote {
                    close: Some(vec![
                        Some(100.0f64.to_bits()),
                        Some(110.0f64.to_bits()),
                        Some(125.0f64.to_bits()),
                    ]),
                }],
            },
        }]),
        error: None,
    };

    let history = match history_from_chart(chart, "https://example.test/chart/AAPL") {
        Some(Ok(h)) => h,
        _ => panic!("valid chart response should parse"),
    };
    assert_eq!(history.currency, "USD");
    assert_eq!(history.exchange.as_deref(), Some("NMS"));
    assert_eq!(
        history.today.as_ref().map(|point| f64::from_bits(point.price_bits)),
        Some(125.5)
    );
    assert_eq!(history.source_url, "https://example.test/chart/AAPL");
}

#[test]
fn parse_finnhub_data_should_preserve_quote_and_profile_metadata() {
    let history = match build_finnhub_price_history(
        FinnhubQuote {
            current: Some(125.5f64.to_bits()),
            timestamp: Some(1735689600),
        },
        FinnhubCandle {
            closes: Some(vec![
                100.0f64.to_bits(),
                110.0f64.to_bits(),
                125.0f64.to_bits(),
            ]),
            timestamps: Some(vec![1704067200, 1704672000, 1735689600]),
            status: Some("ok".to_string()),
        },
        FinnhubProfile {
            currency: Some("USD".to_string()),
            exchange: Some("NASDAQ".to_string()),
        },
        "https://finnhub.io/api/v1/stock/candle?symbol=AAPL&resolution=D".to_string(),
    ) {
        Some(Ok(h)) => h,
        _ => panic!("valid Finnhub data should parse"),
    };

    assert_eq!(history.currency, "USD");
    assert_eq!(history.exchange.as_deref(), Some("NASDAQ"));
    assert_eq!(
        history.today.as_ref().map(|point| f64::from_bits(point.price_bits)),
        Some(125.5)
    );
}

#[test]
fn route_decision_should_accept_nullable_optional_fields() {
    let decision = RouteDecision::from_fields(
        &JsonField::Text("Investigation".to_string()),
        &JsonField::Null,
        &JsonField::Null,
        &JsonField::Null,
    )
    .expect("nullable route fields should be normalized");

    assert_eq!(decision.intent, QueryIntent::Investigation);
    assert!(decision.companies.is_empty());
    assert!(!decision.requires_discovery);
    assert!(decision.discovery_topic.is_empty());
}
