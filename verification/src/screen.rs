//! What the terminal screen shows, computed from the interface state: the
//! header's title, status and token counts, the chat transcript with its
//! scroll position, the error panel, and where the input's cursor sits.
use vstd::prelude::*;
use vstd::string::StrSliceExecFns;
use crate::events::{sat_add, TokenUsage};
use crate::markdown::{
    format_markdown, formatted, line_view, lines_view, SpanStyle, StyledLine, StyledSpan,
};
use crate::models::{Conversation, Message, MessageView, Role};
use crate::text::{byte_len, copy_str, decimal, push_decimal, push_str};
use crate::ui::{sat_sub16, sat_add16};

verus! {

// ---------------------------------------------------------------------------
// Header
// ---------------------------------------------------------------------------
/// The status in the header: the running stage as `agent current/total`,
/// otherwise whether a run is under way.
pub open spec fn status_line(stage: Option<(Seq<char>, nat, nat)>, loading: bool) -> Seq<char> {
    match stage {
        Some((agent, current, total)) => agent + seq![' '] + decimal(current) + seq!['/'] + decimal(
            total,
        ),
        None => if loading {
            "Pensando…"@
        } else {
            "Listo"@
        },
    }
}

pub fn status_text(stage: &Option<(String, usize, usize)>, loading: bool) -> (s: String)
    ensures
        s@ == status_line(
            match stage {
                Some((a, c, t)) => Some((a@, *c as nat, *t as nat)),
                None => None,
            },
            loading,
        ),
{
    match stage {
        Some((agent, current, total)) => {
            let mut s = copy_str(agent.as_str());
            push_str(&mut s, " ");
            push_decimal(&mut s, *current as u64);
            push_str(&mut s, "/");
            push_decimal(&mut s, *total as u64);
            proof {
                reveal_strlit(" ");
                reveal_strlit("/");
                assert(s@ =~= agent@ + seq![' '] + decimal(*current as nat) + seq!['/'] + decimal(
                    *total as nat,
                ));
            }
            s
        },
        None => if loading {
            copy_str("Pensando…")
        } else {
            copy_str("Listo")
        },
    }
}

/// The token counts in the header.
pub open spec fn usage_line(u: TokenUsage) -> Seq<char> {
    "tokens in: "@ + decimal(u.prompt_tokens as nat) + " • out: "@ + decimal(
        u.completion_tokens as nat,
    ) + " • total: "@ + decimal(sat_add(u.prompt_tokens, u.completion_tokens) as nat)
}

pub fn usage_text(usage: &TokenUsage) -> (s: String)
    ensures
        s@ == usage_line(*usage),
{
    let mut s = String::new();
    push_str(&mut s, "tokens in: ");
    push_decimal(&mut s, usage.prompt_tokens);
    push_str(&mut s, " • out: ");
    push_decimal(&mut s, usage.completion_tokens);
    push_str(&mut s, " • total: ");
    push_decimal(&mut s, usage.total());
    assert(s@ =~= usage_line(*usage));
    s
}

/// The title of the first conversation listed with identifier `id`.
pub open spec fn first_title(convs: Seq<Conversation>, id: u128) -> Option<Seq<char>>
    decreases convs.len(),
{
    if convs.len() == 0 {
        None
    } else if convs[0].id == id {
        Some(convs[0].title@)
    } else {
        first_title(convs.drop_first(), id)
    }
}

/// The header's title: the shown conversation's, or the application's name.
pub open spec fn title_line(convs: Seq<Conversation>, current: Option<u128>) -> Seq<char> {
    match current {
        Some(id) => match first_title(convs, id) {
            Some(t) => t,
            None => "Stock Agent"@,
        },
        None => "Stock Agent"@,
    }
}

pub fn conversation_title(conversations: &Vec<Conversation>, current: Option<u128>) -> (s: String)
    ensures
        s@ == title_line(conversations@, current),
{
    if let Some(id) = current {
        let n = conversations.len();
        let mut i: usize = 0;
        assert(conversations@.skip(0) =~= conversations@);
        while i < n
            invariant
                i <= n == conversations@.len(),
                current == Some(id),
                first_title(conversations@.skip(i as int), id) == first_title(conversations@, id),
            decreases n - i,
        {
            proof {
                assert(conversations@.skip(i as int).drop_first() =~= conversations@.skip(i + 1));
                assert(conversations@.skip(i as int)[0] == conversations@[i as int]);
            }
            if conversations[i].id == id {
                assert(first_title(conversations@.skip(i as int), id) == Some(
                    conversations@[i as int].title@,
                ));
                return copy_str(conversations[i].title.as_str());
            }
            i += 1;
        }
        assert(conversations@.skip(n as int) =~= Seq::<Conversation>::empty());
    }
    copy_str("Stock Agent")
}

// ---------------------------------------------------------------------------
// Chat transcript
// ---------------------------------------------------------------------------
/// The label above a message, by its author.
pub open spec fn message_label(r: Role) -> (Seq<char>, SpanStyle) {
    match r {
        Role::User => ("❯ Tú"@, SpanStyle::UserLabel),
        Role::Assistant => ("◆ Agente"@, SpanStyle::AgentLabel),
        _ => ("⚠ Sistema"@, SpanStyle::SystemLabel),
    }
}

/// A message on screen: its label, its rendered Markdown, a blank line.
pub open spec fn message_block(m: MessageView) -> Seq<Seq<(Seq<char>, SpanStyle)>> {
    seq![seq![message_label(m.role)]] + formatted(m.content) + seq![Seq::empty()]
}

pub open spec fn messages_upto(msgs: Seq<MessageView>, k: nat) -> Seq<
    Seq<(Seq<char>, SpanStyle)>,
>
    decreases k,
{
    if k == 0 {
        Seq::empty()
    } else {
        messages_upto(msgs, (k - 1) as nat) + message_block(msgs[k - 1])
    }
}

/// The line that says the agent is at work.
pub open spec fn working_line() -> Seq<(Seq<char>, SpanStyle)> {
    seq![("◆ Agente "@, SpanStyle::AgentLabel), ("está trabajando…"@, SpanStyle::Dim)]
}

/// The whole transcript, with the working line while a run is under way.
pub open spec fn transcript(msgs: Seq<MessageView>, loading: bool) -> Seq<
    Seq<(Seq<char>, SpanStyle)>,
> {
    messages_upto(msgs, msgs.len()) + if loading {
        seq![working_line()]
    } else {
        Seq::empty()
    }
}

fn span(text: &str, style: SpanStyle) -> (s: StyledSpan)
    ensures
        s.text@ == text@,
        s.style == style,
{
    StyledSpan { text: copy_str(text), style }
}

/// The lines of the chat panel.
pub fn chat_lines(messages: &Vec<Message>, loading: bool) -> (r: Vec<StyledLine>)
    requires
        forall|k: int| 0 <= k < messages@.len() ==> byte_len(#[trigger] messages@[k].content@) <= isize::MAX,
    ensures
        lines_view(r@) == transcript(crate::models::messages_view(messages@), loading),
{
    let ghost mv = crate::models::messages_view(messages@);
    let mut out: Vec<StyledLine> = Vec::new();
    let n = messages.len();
    let mut k: usize = 0;
    while k < n
        invariant
            k <= n == messages@.len() == mv.len(),
            mv == crate::models::messages_view(messages@),
            forall|j: int| 0 <= j < messages@.len() ==> byte_len(#[trigger] messages@[j].content@) <= isize::MAX,
            lines_view(out@) == messages_upto(mv, k as nat),
        decreases n - k,
    {
        let m = &messages[k];
        let label = match m.role {
            Role::User => span("❯ Tú", SpanStyle::UserLabel),
            Role::Assistant => span("◆ Agente", SpanStyle::AgentLabel),
            _ => span("⚠ Sistema", SpanStyle::SystemLabel),
        };
        let mut label_spans: Vec<StyledSpan> = Vec::new();
        label_spans.push(label);
        let label_line = StyledLine { spans: label_spans };
        assert(line_view(label_line) =~= seq![message_label(mv[k as int].role)]);
        let mut body = format_markdown(m.content.as_str());
        let blank = StyledLine { spans: Vec::new() };
        assert(line_view(blank) =~= Seq::<(Seq<char>, SpanStyle)>::empty());
        proof {
            assert(lines_view(out@.push(label_line) + body@ + seq![blank]) =~= lines_view(out@)
                + message_block(mv[k as int]));
        }
        out.push(label_line);
        out.append(&mut body);
        out.push(blank);
        k += 1;
    }
    if loading {
        let mut spans: Vec<StyledSpan> = Vec::new();
        spans.push(span("◆ Agente ", SpanStyle::AgentLabel));
        spans.push(span("está trabajando…", SpanStyle::Dim));
        let line = StyledLine { spans };
        assert(line_view(line) =~= working_line());
        proof {
            assert(lines_view(out@.push(line)) =~= lines_view(out@).push(working_line()));
        }
        out.push(line);
    }
    assert(lines_view(out@) =~= transcript(mv, loading));
    out
}

/// The characters of a line, all spans together.
pub open spec fn line_chars(l: Seq<(Seq<char>, SpanStyle)>) -> nat
    decreases l.len(),
{
    if l.len() == 0 {
        0
    } else {
        line_chars(l.drop_last()) + l.last().0.len()
    }
}

/// Screen rows a line of `n` characters takes at width `w` (an empty line
/// takes one).
pub open spec fn wrapped_rows(n: nat, w: nat) -> nat {
    let m: nat = if n == 0 {
        1
    } else {
        n
    };
    ((m - 1) / (w as int) + 1) as nat
}

/// The rows taken by the first `k` lines: each line's count is cut to 16
/// bits (`as u16`), and they are added up capped at `u16::MAX`.
pub open spec fn wrapped_total(lines: Seq<Seq<(Seq<char>, SpanStyle)>>, w: nat, k: nat) -> u16
    decreases k,
{
    if k == 0 {
        0
    } else {
        sat_add16(
            wrapped_total(lines, w, (k - 1) as nat),
            (wrapped_rows(line_chars(lines[k - 1]), w) % 65536) as u16,
        )
    }
}

/// The width used for wrapping: at least one column.
pub open spec fn wrap_width(width: u16) -> nat {
    if width == 0 {
        1
    } else {
        width as nat
    }
}

fn line_chars_exec(l: &StyledLine) -> (n: usize)
    requires
        line_chars(line_view(*l)) <= usize::MAX,
    ensures
        n == line_chars(line_view(*l)),
{
    let ghost lv = line_view(*l);
    let mut total: usize = 0;
    let mut i: usize = 0;
    while i < l.spans.len()
        invariant
            i <= l.spans@.len() == lv.len(),
            lv == line_view(*l),
            total == line_chars(lv.take(i as int)),
            line_chars(lv) <= usize::MAX,
        decreases l.spans@.len() - i,
    {
        proof {
            assert(lv.take(i + 1).drop_last() =~= lv.take(i as int));
            lemma_line_chars_prefix(lv, i + 1);
        }
        total = total + l.spans[i].text.as_str().unicode_len();
        i += 1;
    }
    assert(lv.take(lv.len() as int) =~= lv);
    total
}

proof fn lemma_line_chars_prefix(l: Seq<(Seq<char>, SpanStyle)>, k: int)
    requires
        0 <= k <= l.len(),
    ensures
        line_chars(l.take(k)) <= line_chars(l),
    decreases l.len() - k,
{
    if k < l.len() {
        lemma_line_chars_prefix(l, k + 1);
        assert(l.take(k + 1).drop_last() =~= l.take(k));
    } else {
        assert(l.take(k) =~= l);
    }
}

/// How many screen rows the lines take when wrapped at `width` columns.
pub fn wrapped_line_count(lines: &[StyledLine], width: u16) -> (r: u16)
    requires
        forall|k: int| 0 <= k < lines@.len() ==> line_chars(line_view(#[trigger] lines@[k])) <= usize::MAX,
    ensures
        r == wrapped_total(lines_view(lines@), wrap_width(width), lines@.len() as nat),
{
    let ghost lv = lines_view(lines@);
    let w: usize = if width == 0 {
        1
    } else {
        width as usize
    };
    let mut total: u16 = 0;
    let mut k: usize = 0;
    while k < lines.len()
        invariant
            k <= lines@.len() == lv.len(),
            lv == lines_view(lines@),
            w == wrap_width(width),
            w >= 1,
            forall|j: int| 0 <= j < lines@.len() ==> line_chars(line_view(#[trigger] lines@[j])) <= usize::MAX,
            total == wrapped_total(lv, w as nat, k as nat),
        decreases lines@.len() - k,
    {
        assert(lv[k as int] == line_view(lines@[k as int]));
        let chars = line_chars_exec(&lines[k]);
        let m: usize = if chars == 0 {
            1
        } else {
            chars
        };
        let rows: usize = (m - 1) / w + 1;
        let cut: u16 = (rows % 65536) as u16;
        total = total.saturating_add(cut);
        k += 1;
    }
    total
}

/// The chat panel's scroll position. `scroll_offset` counts rows up from
/// the bottom: zero always shows the latest lines.
pub fn chat_scroll(wrapped_lines: u16, view_height: u16, scroll_offset: u16) -> (s: u16)
    ensures
        s == sat_sub16(sat_sub16(wrapped_lines, view_height), scroll_offset),
        s <= sat_sub16(wrapped_lines, view_height),
        scroll_offset == 0 ==> s == sat_sub16(wrapped_lines, view_height),
{
    let max_scroll = wrapped_lines.saturating_sub(view_height);
    max_scroll.saturating_sub(scroll_offset)
}

// ---------------------------------------------------------------------------
// Error panel and input line
// ---------------------------------------------------------------------------
/// The keys offered under an error.
pub fn error_actions(retryable: bool) -> (s: &'static str)
    ensures
        s@ == (if retryable {
            "r reintentar · d descartar"@
        } else {
            "d descartar"@
        }),
{
    if retryable {
        "r reintentar · d descartar"
    } else {
        "d descartar"
    }
}

/// The error panel's first line.
pub fn error_line(message: &str) -> (s: String)
    ensures
        s@ == "⚠ Error: "@ + message@,
{
    let mut s = copy_str("⚠ Error: ");
    push_str(&mut s, message);
    s
}

/// The title of the input box.
pub fn input_label(loading: bool) -> (s: &'static str)
    ensures
        s@ == (if loading {
            "⏳ Procesando · Esc cancela"@
        } else {
            "⌨ Entrada · Enter enviar · Ctrl+U limpiar"@
        }),
{
    if loading {
        "⏳ Procesando · Esc cancela"
    } else {
        "⌨ Entrada · Enter enviar · Ctrl+U limpiar"
    }
}

/// `a - b` floored at zero.
pub open spec fn sat_sub(a: nat, b: nat) -> nat {
    if a >= b {
        (a - b) as nat
    } else {
        0
    }
}

/// How far the input is scrolled so that the cursor, at character
/// `cursor_column`, stays inside a box `width` columns wide.
pub fn input_horizontal_offset(cursor_column: usize, width: usize) -> (r: usize)
    ensures
        r == (if width == 0 {
            0
        } else {
            sat_sub(cursor_column as nat, (width - 1) as nat)
        }),
{
    if width == 0 {
        return 0;
    }
    cursor_column.saturating_sub(width.saturating_sub(1))
}

/// The cursor's column inside the input box, when the box has room: always
/// inside the box.
pub fn input_cursor_column(cursor_column: usize, width: usize) -> (r: Option<usize>)
    ensures
        width == 0 ==> r is None,
        width > 0 ==> r == Some(
            {
                let v = sat_sub(
                    cursor_column as nat,
                    sat_sub(cursor_column as nat, (width - 1) as nat),
                );
                if v < width - 1 {
                    v as usize
                } else {
                    (width - 1) as usize
                }
            },
        ),
        r matches Some(c) ==> c < width,
{
    if width == 0 {
        return None;
    }
    let offset = input_horizontal_offset(cursor_column, width);
    let visible = cursor_column.saturating_sub(offset);
    let last = width - 1;
    Some(
        if visible < last {
            visible
        } else {
            last
        },
    )
}

} // verus!
