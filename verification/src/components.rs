//! Terminal front-end pieces that carry logic of their own: the title
//! widget, the size guard and the elapsed-time formatting. The drawing of
//! status tables and charts is plain rendering and lives with the host.

use vstd::prelude::*;
use vstd::string::StringExecFns;

verus! {

/// Declares ratatui's paragraph widget so the title constructor below can
/// return it.
#[verifier::external_type_specification]
#[verifier::external_body]
pub struct ExParagraph<'a>(ratatui::widgets::Paragraph<'a>);

/// The engine's title banner.
///
/// Relies on ratatui's widget builders (`Paragraph::new`, `Style`, `Block`):
/// pure widget construction, nothing is drawn or promised here.
#[verifier::external_body]
pub fn draw_title() -> ratatui::widgets::Paragraph<'static> {
    ratatui::widgets::Paragraph::new("NPcore Execution")
        .style(ratatui::style::Style::default().fg(ratatui::style::Color::LightCyan))
        .alignment(ratatui::layout::Alignment::Center)
        .block(
            ratatui::widgets::Block::default()
                .borders(ratatui::widgets::Borders::ALL)
                .style(ratatui::style::Style::default().fg(ratatui::style::Color::White))
                .border_type(ratatui::widgets::BorderType::Plain),
        )
}

/// A terminal size, in character cells.
#[derive(Clone, Copy, Debug, PartialEq, Eq, Structural)]
pub struct TermSize {
    pub width: u16,
    pub height: u16,
}

/// Whether the terminal is large enough for the dashboard: at least 52
/// columns and 12 rows. The host refuses to draw (as the engine's front end
/// did) when this is false.
pub fn check_size(size: &TermSize) -> (ok: bool)
    ensures
        ok == (size.width >= 52 && size.height >= 12),
{
    size.width >= 52 && size.height >= 12
}

/// The decimal digit characters of a natural number, most significant first.
pub open spec fn dec_digits(n: nat) -> Seq<char>
    decreases n,
{
    if n < 10 {
        seq![digit_char(n)]
    } else {
        dec_digits(n / 10).push(digit_char(n % 10))
    }
}

/// The character of one decimal digit.
pub open spec fn digit_char(d: nat) -> char {
    if d == 0 {
        '0'
    } else if d == 1 {
        '1'
    } else if d == 2 {
        '2'
    } else if d == 3 {
        '3'
    } else if d == 4 {
        '4'
    } else if d == 5 {
        '5'
    } else if d == 6 {
        '6'
    } else if d == 7 {
        '7'
    } else if d == 8 {
        '8'
    } else {
        '9'
    }
}

/// One decimal digit as a string slice.
fn digit_str(d: u64) -> (r: &'static str)
    requires
        d < 10,
    ensures
        r@ == seq![digit_char(d as nat)],
{
    proof {
        reveal_strlit("0");
        reveal_strlit("1");
        reveal_strlit("2");
        reveal_strlit("3");
        reveal_strlit("4");
        reveal_strlit("5");
        reveal_strlit("6");
        reveal_strlit("7");
        reveal_strlit("8");
        reveal_strlit("9");
    }
    let r = if d == 0 {
        "0"
    } else if d == 1 {
        "1"
    } else if d == 2 {
        "2"
    } else if d == 3 {
        "3"
    } else if d == 4 {
        "4"
    } else if d == 5 {
        "5"
    } else if d == 6 {
        "6"
    } else if d == 7 {
        "7"
    } else if d == 8 {
        "8"
    } else {
        "9"
    };
    proof {
        assert(r@ =~= seq![digit_char(d as nat)]);
    }
    r
}

/// A natural number in decimal.
pub fn u64_dec(n: u64) -> (r: String)
    ensures
        r@ == dec_digits(n as nat),
    decreases n,
{
    if n < 10 {
        let digit = digit_str(n);
        let r = String::from_str(digit);
        proof {
            assert(r@ =~= dec_digits(n as nat));
        }
        r
    } else {
        let mut r = u64_dec(n / 10);
        let digit = digit_str(n % 10);
        r.append(digit);
        proof {
            assert(r@ =~= dec_digits(n as nat));
        }
        r
    }
}

/// What the elapsed-time text says: whole seconds below a minute, whole
/// minutes below an hour, whole hours beyond, each with its unit letter.
pub open spec fn spec_format_time(elapsed_seconds: u64) -> Seq<char> {
    if elapsed_seconds < 60 {
        dec_digits(elapsed_seconds as nat).push('s')
    } else if elapsed_seconds < 3600 {
        dec_digits((elapsed_seconds as nat) / 60).push('m')
    } else {
        dec_digits((elapsed_seconds as nat) / 3600).push('h')
    }
}

/// Formats an elapsed time, given in whole seconds.
pub fn format_time(elapsed_seconds: u64) -> (r: String)
    ensures
        r@ == spec_format_time(elapsed_seconds),
{
    proof {
        reveal_strlit("s");
        reveal_strlit("m");
        reveal_strlit("h");
    }
    let (value, unit): (u64, &'static str) = if elapsed_seconds < 60 {
        (elapsed_seconds, "s")
    } else if elapsed_seconds < 3600 {
        (elapsed_seconds / 60, "m")
    } else {
        (elapsed_seconds / 3600, "h")
    };
    let mut text = u64_dec(value);
    text.append(unit);
    proof {
        assert(text@ =~= spec_format_time(elapsed_seconds));
    }
    text
}

} // verus!
