use stock_agent::events::{RunEvent, TokenUsage};
use stock_agent::markdown::{format_markdown, SpanStyle, StyledLine, StyledSpan};
use stock_agent::models::{Conversation, Message, Role, Timestamp};
use stock_agent::screen::{
    chat_lines, chat_scroll, conversation_title, error_actions, error_line, input_cursor_column,
    input_horizontal_offset, input_label, status_text, usage_text, wrapped_line_count,
};
use stock_agent::ui::{App, Key, KeyAction, MAX_TRACE_LINES};

fn flat(lines: &[StyledLine]) -> Vec<Vec<(String, SpanStyle)>> {
    lines
        .iter()
        .map(|l| l.spans.iter().map(|s| (s.text.clone(), s.style)).collect())
        .collect()
}

fn one(text: &str, style: SpanStyle) -> Vec<(String, SpanStyle)> {
    vec![(text.to_string(), style)]
}

fn at(secs: i64) -> Timestamp {
    Timestamp { secs, nanos: 0 }
}

#[test]
fn markdown_renders_headings_bold_and_tables() {
    let text = "# Título\nTexto **negrita** fin\n| A | B |\n|---|---|\n| 1 | 22 |\n";
    let lines = flat(&format_markdown(text));
    assert_eq!(
        lines,
        vec![
            one("# Título", SpanStyle::Heading),
            vec![
                ("Texto ".to_string(), SpanStyle::Plain),
                ("negrita".to_string(), SpanStyle::Bold),
                (" fin".to_string(), SpanStyle::Plain),
            ],
            one("┌───┬────┐", SpanStyle::Border),
            one("│ A │ B  │", SpanStyle::HeaderRow),
            one("├───┼────┤", SpanStyle::Border),
            one("│ 1 │ 22 │", SpanStyle::BodyRow),
            one("└───┴────┘", SpanStyle::Border),
        ]
    );
}

#[test]
fn markdown_keeps_short_pipe_runs_as_text() {
    let text = "| a |\n|---|\nfin\r\n";
    let lines = flat(&format_markdown(text));
    assert_eq!(
        lines,
        vec![
            one("| a |", SpanStyle::Plain),
            one("|---|", SpanStyle::Plain),
            one("fin", SpanStyle::Plain),
        ]
    );
    assert!(format_markdown("").is_empty());
}

#[test]
fn table_widths_count_bytes_and_pad_characters() {
    let text = "| Año | x |\n| --- | --- |\n| é | yy |";
    let lines = flat(&format_markdown(text));
    assert_eq!(lines[0], one("┌──────┬────┐", SpanStyle::Border));
    assert_eq!(lines[1], one("│ Año  │ x  │", SpanStyle::HeaderRow));
    assert_eq!(lines[3], one("│ é    │ yy │", SpanStyle::BodyRow));
    assert_eq!(lines.len(), 5);
}

#[test]
fn header_status_follows_the_run() {
    assert_eq!(status_text(&Some(("Router".to_string(), 2, 5)), true), "Router 2/5");
    assert_eq!(status_text(&None, true), "Pensando…");
    assert_eq!(status_text(&None, false), "Listo");
}

#[test]
fn header_usage_shows_the_saturated_total() {
    let u = TokenUsage { prompt_tokens: 10, completion_tokens: 5 };
    assert_eq!(usage_text(&u), "tokens in: 10 • out: 5 • total: 15");
    let big = TokenUsage { prompt_tokens: u64::MAX, completion_tokens: 1 };
    assert_eq!(
        usage_text(&big),
        format!("tokens in: {} • out: 1 • total: {}", u64::MAX, u64::MAX)
    );
}

#[test]
fn header_title_is_the_shown_conversation() {
    let convs = vec![
        Conversation { id: 1, title: "Primera".to_string(), created_at: at(0) },
        Conversation { id: 2, title: "Segunda".to_string(), created_at: at(0) },
    ];
    assert_eq!(conversation_title(&convs, Some(2)), "Segunda");
    assert_eq!(conversation_title(&convs, Some(3)), "Stock Agent");
    assert_eq!(conversation_title(&convs, None), "Stock Agent");
}

#[test]
fn transcript_labels_each_message_and_shows_work_in_progress() {
    let msgs = vec![
        Message {
            id: 1,
            conversation_id: 9,
            role: Role::User,
            content: "hola".to_string(),
            created_at: at(0),
            thinking: None,
        },
        Message {
            id: 2,
            conversation_id: 9,
            role: Role::Tool,
            content: "x".to_string(),
            created_at: at(0),
            thinking: None,
        },
    ];
    let lines = flat(&chat_lines(&msgs, true));
    assert_eq!(
        lines,
        vec![
            one("❯ Tú", SpanStyle::UserLabel),
            one("hola", SpanStyle::Plain),
            Vec::new(),
            one("⚠ Sistema", SpanStyle::SystemLabel),
            one("x", SpanStyle::Plain),
            Vec::new(),
            vec![
                ("◆ Agente ".to_string(), SpanStyle::AgentLabel),
                ("está trabajando…".to_string(), SpanStyle::Dim),
            ],
        ]
    );
}

fn line_of(n: usize) -> StyledLine {
    StyledLine { spans: vec![StyledSpan { text: "a".repeat(n), style: SpanStyle::Plain }] }
}

#[test]
fn wrapped_lines_round_up_and_count_empty_lines() {
    let lines = vec![line_of(0), line_of(10), line_of(25)];
    assert_eq!(wrapped_line_count(&lines, 10), 5);
    assert_eq!(wrapped_line_count(&lines, 0), 36);
    assert_eq!(wrapped_line_count(&[], 10), 0);
}

#[test]
fn chat_scroll_counts_up_from_the_latest() {
    assert_eq!(chat_scroll(50, 20, 0), 30);
    assert_eq!(chat_scroll(50, 20, 5), 25);
    assert_eq!(chat_scroll(50, 20, 40), 0);
    assert_eq!(chat_scroll(10, 20, 0), 0);
}

#[test]
fn input_cursor_stays_inside_the_box() {
    assert_eq!(input_horizontal_offset(15, 10), 6);
    assert_eq!(input_horizontal_offset(5, 10), 0);
    assert_eq!(input_horizontal_offset(5, 0), 0);
    assert_eq!(input_cursor_column(15, 10), Some(9));
    assert_eq!(input_cursor_column(3, 10), Some(3));
    assert_eq!(input_cursor_column(3, 0), None);
}

#[test]
fn panels_name_their_keys() {
    assert_eq!(error_actions(true), "r reintentar · d descartar");
    assert_eq!(error_actions(false), "d descartar");
    assert_eq!(input_label(true), "⏳ Procesando · Esc cancela");
    assert_eq!(input_label(false), "⌨ Entrada · Enter enviar · Ctrl+U limpiar");
    assert_eq!(error_line("caída"), "⚠ Error: caída");
}

#[test]
fn input_editing_moves_the_cursor_by_characters() {
    let mut app = App::new(Vec::new(), Vec::new());
    app.insert_char('a');
    app.insert_char('ñ');
    app.move_cursor_left();
    app.insert_char('x');
    assert_eq!(app.input_text(), "axñ");
    assert_eq!(app.cursor(), 2);
    app.delete_forward();
    assert_eq!(app.input_text(), "ax");
    app.delete_backward();
    assert_eq!(app.input_text(), "a");
    assert_eq!(app.cursor(), 1);
    app.cursor_home();
    app.delete_backward();
    assert_eq!(app.input_text(), "a");
    app.cursor_end();
    assert_eq!(app.cursor(), 1);
    app.clear_input();
    assert_eq!(app.input_text(), "");
    assert_eq!(app.cursor(), 0);
}

#[test]
fn keys_map_to_their_actions() {
    let mut app = App::new(Vec::new(), Vec::new());
    assert_eq!(app.handle_key(Key::Char('h'), false), KeyAction::Nothing);
    assert_eq!(app.input_text(), "h");
    assert_eq!(app.handle_key(Key::Char('u'), true), KeyAction::Nothing);
    assert_eq!(app.input_text(), "");
    assert_eq!(app.handle_key(Key::Enter, false), KeyAction::Send);
    assert_eq!(app.handle_key(Key::Tab, false), KeyAction::NextConversation);
    assert_eq!(app.handle_key(Key::F(2), false), KeyAction::NewConversation);
    assert_eq!(app.handle_key(Key::F(4), false), KeyAction::DeleteConversation);
    assert_eq!(app.handle_key(Key::F(5), false), KeyAction::ResetProfile);
    assert_eq!(app.handle_key(Key::F(6), false), KeyAction::Nothing);
    assert_eq!(app.handle_key(Key::Up, false), KeyAction::Nothing);
    assert_eq!(app.handle_key(Key::PageUp, false), KeyAction::Nothing);
    assert_eq!(app.scroll_offset(), 11);
    assert_eq!(app.handle_key(Key::PageDown, false), KeyAction::Nothing);
    assert_eq!(app.handle_key(Key::Down, false), KeyAction::Nothing);
    assert_eq!(app.handle_key(Key::Down, false), KeyAction::Nothing);
    assert_eq!(app.scroll_offset(), 0);
    assert_eq!(app.handle_key(Key::Char('c'), true), KeyAction::Quit);
    assert_eq!(app.handle_key(Key::Esc, false), KeyAction::Quit);
}

#[test]
fn a_failed_run_can_be_retried_or_dismissed() {
    let mut app = App::new(Vec::new(), Vec::new());
    for c in "  ¿Qué es un bono?  ".chars() {
        app.insert_char(c);
    }
    assert!(app.can_send());
    let query = app.begin_send(5, 77, 1, at(10));
    assert_eq!(query, "¿Qué es un bono?");
    assert!(app.is_loading());
    assert_eq!(app.messages().len(), 1);
    assert!(!app.can_send());
    app.apply_event(RunEvent::Usage {
        run_id: 77,
        usage: TokenUsage { prompt_tokens: 3, completion_tokens: 4 },
    });
    app.apply_event(RunEvent::Usage {
        run_id: 99,
        usage: TokenUsage { prompt_tokens: 100, completion_tokens: 100 },
    });
    assert_eq!(app.token_usage().total(), 7);
    app.apply_event(RunEvent::Failed {
        run_id: 77,
        conversation_id: 5,
        message: "timeout".to_string(),
        retryable: true,
    });
    assert!(!app.is_loading());
    assert_eq!(app.error_message().as_deref(), Some("timeout"));
    assert_eq!(app.handle_key(Key::Char('x'), false), KeyAction::Nothing);
    assert_eq!(app.input_text(), "");
    assert_eq!(app.handle_key(Key::Char('r'), false), KeyAction::Retry);
    assert!(app.take_retry_query());
    assert_eq!(app.input_text(), "¿Qué es un bono?");
    assert_eq!(app.handle_key(Key::Char('d'), false), KeyAction::Nothing);
    assert!(app.error_message().is_none());
    assert!(!app.take_retry_query());
}

#[test]
fn trace_keeps_the_latest_thirty_lines() {
    let mut app = App::new(Vec::new(), Vec::new());
    app.insert_char('q');
    let _ = app.begin_send(1, 2, 3, at(0));
    for i in 0..35 {
        app.apply_event(RunEvent::Trace { run_id: 2, message: format!("línea {i}") });
    }
    app.apply_event(RunEvent::Trace { run_id: 8, message: "ajena".to_string() });
    assert_eq!(app.trace_log().len(), MAX_TRACE_LINES);
    assert_eq!(app.trace_log()[0], "línea 5");
    assert_eq!(app.trace_log()[29], "línea 34");
    app.apply_event(RunEvent::Stage { run_id: 2, agent: "Router".to_string(), current: 2, total: 5 });
    assert_eq!(status_text(app.stage(), app.is_loading()), "Router 2/5");
    app.apply_event(RunEvent::Completed { run_id: 2, conversation_id: 1 });
    assert!(!app.is_loading());
    assert_eq!(status_text(app.stage(), app.is_loading()), "Listo");
}

#[test]
fn conversations_cycle_from_the_current_one() {
    let convs = vec![
        Conversation { id: 1, title: "a".to_string(), created_at: at(0) },
        Conversation { id: 2, title: "b".to_string(), created_at: at(0) },
    ];
    let mut app = App::new(convs, Vec::new());
    assert_eq!(app.current_conversation(), Some(1));
    assert_eq!(app.conversations().len(), 2);
    assert_eq!(conversation_title(app.conversations(), app.current_conversation()), "a");
    assert_eq!(app.token_usage().total(), 0);
    assert!(!app.error_retryable());
    assert_eq!(app.next_conversation_index(), Some(1));
    app.show_conversation(2, Vec::new());
    assert_eq!(app.next_conversation_index(), Some(0));
    let empty = App::new(Vec::new(), Vec::new());
    assert_eq!(empty.next_conversation_index(), None);
}
