//! Unobtrusive system notifications for parked notes.
//!
//! A note is announced through the operating system's command-line notifier.
//! This module decides which program runs with which arguments; the caller
//! starts it and ignores its failure, so a missing notifier never stops the
//! application. Title and body travel as separate arguments, or, where the
//! notifier takes a script, inside string literals that they cannot leave.
use vstd::prelude::*;

use crate::text::{chars_of, lemma_replace_char_concat, push_char, replace_char};

verus! {

/// The platforms that have a native notifier.
#[derive(Clone, Copy, Debug)]
pub enum Platform {
    Linux,
    MacOs,
    Windows,
    Other,
}

/// A notifier program and its arguments, each passed as one process argument.
#[derive(Debug)]
pub struct NotifyCommand {
    pub program: String,
    pub args: Vec<String>,
}

/// `s` made safe to stand between the double quotes of an AppleScript string
/// literal: every backslash is doubled, then every `"` becomes `\"`.
pub open spec fn spec_escape_applescript(s: Seq<char>) -> Seq<char> {
    replace_char(replace_char(s, '\\', seq!['\\', '\\']), '"', seq!['\\', '"'])
}

/// The characters PowerShell takes as a single quote: the apostrophe and the
/// typographic single quotes U+2018, U+2019, U+201A and U+201B.
pub open spec fn is_ps_single_quote(c: char) -> bool {
    c == '\'' || c == '\u{2018}' || c == '\u{2019}' || c == '\u{201a}' || c == '\u{201b}'
}

/// One character made safe for a PowerShell single-quoted literal: a single
/// quote of any kind is doubled.
pub open spec fn ps_quote_char(c: char) -> Seq<char> {
    if is_ps_single_quote(c) {
        seq![c, c]
    } else {
        seq![c]
    }
}

/// `s` made safe to stand between the single quotes of a PowerShell string
/// literal: every single quote, of any of PowerShell's kinds, is doubled.
pub open spec fn spec_ps_quote(s: Seq<char>) -> Seq<char>
    decreases s.len(),
{
    if s.len() == 0 {
        s
    } else {
        spec_ps_quote(s.drop_last()) + ps_quote_char(s.last())
    }
}

/// The escape sequences of an AppleScript string literal: a backslash before
/// `"` or `\\` stands for that character, before `n`, `t` or `r` for a line
/// feed, tab or carriage return.
pub open spec fn applescript_escape_known(c: char) -> bool {
    c == '"' || c == '\\' || c == 'n' || c == 't' || c == 'r'
}

/// The character an AppleScript escape sequence `\c` stands for.
pub open spec fn applescript_escaped_char(c: char) -> char {
    if c == 'n' {
        '\n'
    } else if c == 't' {
        '\t'
    } else if c == 'r' {
        '\r'
    } else {
        c
    }
}

/// How AppleScript reads the body of a double-quoted literal: each escape
/// sequence stands for its character, every other character for itself.
pub open spec fn applescript_literal_value(t: Seq<char>) -> Seq<char>
    decreases t.len(),
{
    if t.len() == 0 {
        t
    } else if t[0] == '\\' && t.len() >= 2 {
        seq![applescript_escaped_char(t[1])] + applescript_literal_value(t.skip(2))
    } else {
        seq![t[0]] + applescript_literal_value(t.skip(1))
    }
}

/// `t` can stand between the quotes of an AppleScript literal without ending
/// it early or breaking it: no `"` is left unescaped and every backslash
/// begins a known escape sequence (so none escapes the closing quote).
pub open spec fn applescript_literal_closed(t: Seq<char>) -> bool
    decreases t.len(),
{
    if t.len() == 0 {
        true
    } else if t[0] == '\\' {
        t.len() >= 2 && applescript_escape_known(t[1]) && applescript_literal_closed(t.skip(2))
    } else {
        t[0] != '"' && applescript_literal_closed(t.skip(1))
    }
}

/// How PowerShell reads the body of a single-quoted literal: two single
/// quotes in a row (of any of its kinds) stand for the second one.
pub open spec fn ps_literal_value(t: Seq<char>) -> Seq<char>
    decreases t.len(),
{
    if t.len() == 0 {
        t
    } else if is_ps_single_quote(t[0]) && t.len() >= 2 && is_ps_single_quote(t[1]) {
        seq![t[1]] + ps_literal_value(t.skip(2))
    } else {
        seq![t[0]] + ps_literal_value(t.skip(1))
    }
}

/// `t` can stand between the quotes of a PowerShell single-quoted literal
/// without ending it early: every single quote, of any of its kinds, is
/// followed by another.
pub open spec fn ps_literal_closed(t: Seq<char>) -> bool
    decreases t.len(),
{
    if t.len() == 0 {
        true
    } else if is_ps_single_quote(t[0]) {
        t.len() >= 2 && is_ps_single_quote(t[1]) && ps_literal_closed(t.skip(2))
    } else {
        ps_literal_closed(t.skip(1))
    }
}

proof fn lemma_escape_applescript_char(c: char)
    ensures
        spec_escape_applescript(seq![c]) == (if c == '\\' {
            seq!['\\', '\\']
        } else if c == '"' {
            seq!['\\', '"']
        } else {
            seq![c]
        }),
{
    reveal_with_fuel(replace_char, 3);
    assert(seq![c].drop_last() =~= Seq::<char>::empty());
    let once = replace_char(seq![c], '\\', seq!['\\', '\\']);
    if c == '\\' {
        assert(once =~= seq!['\\', '\\']);
        assert(seq!['\\', '\\'].drop_last() =~= seq!['\\']);
        assert(seq!['\\'].drop_last() =~= Seq::<char>::empty());
        assert(replace_char(seq!['\\'], '"', seq!['\\', '"']) =~= seq!['\\']);
    } else {
        assert(once =~= seq![c]);
    }
}

proof fn lemma_escape_applescript_cons(c: char, rest: Seq<char>)
    ensures
        spec_escape_applescript(seq![c] + rest) == spec_escape_applescript(seq![c])
            + spec_escape_applescript(rest),
{
    let r1 = seq!['\\', '\\'];
    let r2 = seq!['\\', '"'];
    lemma_replace_char_concat(seq![c], rest, '\\', r1);
    lemma_replace_char_concat(replace_char(seq![c], '\\', r1), replace_char(rest, '\\', r1), '"', r2);
}

proof fn lemma_ps_quote_concat(a: Seq<char>, b: Seq<char>)
    ensures
        spec_ps_quote(a + b) == spec_ps_quote(a) + spec_ps_quote(b),
    decreases b.len(),
{
    if b.len() == 0 {
        assert(a + b =~= a);
        assert(spec_ps_quote(a) + spec_ps_quote(b) =~= spec_ps_quote(a));
    } else {
        assert((a + b).drop_last() =~= a + b.drop_last());
        assert((a + b).last() == b.last());
        lemma_ps_quote_concat(a, b.drop_last());
        assert(spec_ps_quote(a) + spec_ps_quote(b.drop_last()) + ps_quote_char(b.last())
            =~= spec_ps_quote(a) + (spec_ps_quote(b.drop_last()) + ps_quote_char(b.last())));
    }
}

proof fn lemma_ps_quote_char(c: char)
    ensures
        spec_ps_quote(seq![c]) == ps_quote_char(c),
{
    reveal_with_fuel(spec_ps_quote, 2);
    assert(seq![c].drop_last() =~= Seq::<char>::empty());
    assert(spec_ps_quote(seq![c]) =~= ps_quote_char(c));
}

/// An AppleScript literal built from an escaped text stays closed and reads
/// back as exactly that text, whatever the text holds.
pub proof fn lemma_applescript_escape_reads_back(s: Seq<char>)
    ensures
        applescript_literal_closed(spec_escape_applescript(s)),
        applescript_literal_value(spec_escape_applescript(s)) == s,
    decreases s.len(),
{
    if s.len() == 0 {
        assert(replace_char(s, '\\', seq!['\\', '\\']) == s);
        assert(spec_escape_applescript(s) == s);
    } else {
        let c = s[0];
        let rest = s.skip(1);
        assert(seq![c] + rest =~= s);
        lemma_escape_applescript_cons(c, rest);
        lemma_escape_applescript_char(c);
        lemma_applescript_escape_reads_back(rest);
        let e = spec_escape_applescript(s);
        let er = spec_escape_applescript(rest);
        if c == '\\' || c == '"' {
            assert(e.skip(2) =~= er);
        } else {
            assert(e.skip(1) =~= er);
        }
        assert(applescript_literal_value(e) =~= s);
    }
}

/// A PowerShell literal built from a quoted text stays closed and reads back
/// as exactly that text, whatever the text holds, typographic single quotes
/// included.
pub proof fn lemma_ps_quote_reads_back(s: Seq<char>)
    ensures
        ps_literal_closed(spec_ps_quote(s)),
        ps_literal_value(spec_ps_quote(s)) == s,
    decreases s.len(),
{
    if s.len() == 0 {
        assert(spec_ps_quote(s) == s);
    } else {
        let c = s[0];
        let rest = s.skip(1);
        assert(seq![c] + rest =~= s);
        lemma_ps_quote_concat(seq![c], rest);
        lemma_ps_quote_char(c);
        lemma_ps_quote_reads_back(rest);
        let e = spec_ps_quote(s);
        let er = spec_ps_quote(rest);
        if is_ps_single_quote(c) {
            assert(e.skip(2) =~= er);
        } else {
            assert(e.skip(1) =~= er);
        }
        assert(ps_literal_value(e) =~= s);
    }
}

/// Escapes a string for safe interpolation into an AppleScript string literal.
pub fn escape_applescript(s: &str) -> (r: String)
    ensures
        r@ == spec_escape_applescript(s@),
{
    let v = chars_of(s);
    let mut out = String::new();
    let mut i: usize = 0;
    assert(v@.take(0) =~= Seq::<char>::empty());
    while i < v.len()
        invariant
            i <= v.len(),
            out@ == spec_escape_applescript(v@.take(i as int)),
        decreases v.len() - i,
    {
        let c = v[i];
        proof {
            assert(v@.take(i + 1) =~= v@.take(i as int) + seq![c]);
            lemma_escape_applescript_char(c);
            let r1 = seq!['\\', '\\'];
            let r2 = seq!['\\', '"'];
            lemma_replace_char_concat(v@.take(i as int), seq![c], '\\', r1);
            lemma_replace_char_concat(
                replace_char(v@.take(i as int), '\\', r1),
                replace_char(seq![c], '\\', r1),
                '"',
                r2,
            );
        }
        if c == '\\' {
            push_char(&mut out, '\\');
            push_char(&mut out, '\\');
        } else if c == '"' {
            push_char(&mut out, '\\');
            push_char(&mut out, '"');
        } else {
            push_char(&mut out, c);
        }
        i = i + 1;
    }
    assert(v@.take(v.len() as int) =~= v@);
    out
}

/// Escapes a string for safe interpolation into a PowerShell single-quoted
/// literal: every single quote PowerShell knows (`'` and U+2018..U+201B) is
/// doubled.
pub fn ps_quote(s: &str) -> (r: String)
    ensures
        r@ == spec_ps_quote(s@),
{
    let v = chars_of(s);
    let mut out = String::new();
    let mut i: usize = 0;
    assert(v@.take(0) =~= Seq::<char>::empty());
    while i < v.len()
        invariant
            i <= v.len(),
            out@ == spec_ps_quote(v@.take(i as int)),
        decreases v.len() - i,
    {
        let c = v[i];
        proof {
            assert(v@.take(i + 1) =~= v@.take(i as int) + seq![c]);
            lemma_ps_quote_char(c);
            lemma_ps_quote_concat(v@.take(i as int), seq![c]);
        }
        if c == '\'' || c == '\u{2018}' || c == '\u{2019}' || c == '\u{201a}' || c == '\u{201b}' {
            push_char(&mut out, c);
            push_char(&mut out, c);
        } else {
            push_char(&mut out, c);
        }
        i = i + 1;
    }
    assert(v@.take(v.len() as int) =~= v@);
    out
}

/// The notifier command line on Linux (libnotify's `notify-send`).
pub const NOTIFY_SEND: &'static str = "notify-send";

/// The application name given to `notify-send`.
pub const NOTIFY_SEND_APP_NAME: &'static str = "--app-name=Parkplatz";

/// The AppleScript interpreter on macOS.
pub const OSASCRIPT: &'static str = "osascript";

/// The option of `osascript` that takes a script.
pub const OSASCRIPT_SCRIPT_OPTION: &'static str = "-e";

/// The parts of the AppleScript around the escaped body and title.
pub const APPLESCRIPT_HEAD: &'static str = "display notification \"";

pub const APPLESCRIPT_MIDDLE: &'static str = "\" with title \"";

pub const APPLESCRIPT_TAIL: &'static str = "\"";

/// The PowerShell interpreter on Windows and its options.
pub const POWERSHELL: &'static str = "powershell";

pub const POWERSHELL_NO_PROFILE: &'static str = "-NoProfile";

pub const POWERSHELL_NON_INTERACTIVE: &'static str = "-NonInteractive";

pub const POWERSHELL_COMMAND: &'static str = "-Command";

/// The parts of the PowerShell toast script around the quoted title and body.
pub const TOAST_HEAD: &'static str = "$ErrorActionPreference = 'SilentlyContinue'\n\
     [Windows.UI.Notifications.ToastNotificationManager, Windows.UI.Notifications, ContentType = WindowsRuntime] | Out-Null\n\
     [Windows.Data.Xml.Dom.XmlDocument, Windows.Data.Xml.Dom.XmlDocument, ContentType = WindowsRuntime] | Out-Null\n\
     $toastXml = [Windows.Data.Xml.Dom.XmlDocument]::new()\n\
     $toastXml.LoadXml(\"<toast><visual><binding template='ToastText02'><text id='1'></text><text id='2'></text></binding></visual></toast>\")\n\
     $toastXml.GetElementsByTagName('text')[0].InnerText = '";

pub const TOAST_MIDDLE: &'static str = "'\n\
     $toastXml.GetElementsByTagName('text')[1].InnerText = '";

pub const TOAST_TAIL: &'static str = "'\n\
     $toast = [Windows.UI.Notifications.ToastNotification]::new($toastXml)\n\
     [Windows.UI.Notifications.ToastNotificationManager]::CreateToastNotifier('Parkplatz').Show($toast)";

/// The AppleScript that shows `body` under the title `title`.
pub open spec fn applescript_source(title: Seq<char>, body: Seq<char>) -> Seq<char> {
    APPLESCRIPT_HEAD@ + spec_escape_applescript(body) + APPLESCRIPT_MIDDLE@
        + spec_escape_applescript(title) + APPLESCRIPT_TAIL@
}

/// The PowerShell script that shows a toast with `title` and `body`.
pub open spec fn powershell_source(title: Seq<char>, body: Seq<char>) -> Seq<char> {
    TOAST_HEAD@ + spec_ps_quote(title) + TOAST_MIDDLE@ + spec_ps_quote(body) + TOAST_TAIL@
}

/// The notifier program and its arguments for `platform`, or `None` where the
/// platform has no notifier.
pub open spec fn spec_notify_command(platform: Platform, title: Seq<char>, body: Seq<char>) -> Option<
    (Seq<char>, Seq<Seq<char>>),
> {
    match platform {
        Platform::Linux => Some((NOTIFY_SEND@, seq![NOTIFY_SEND_APP_NAME@, title, body])),
        Platform::MacOs => Some(
            (OSASCRIPT@, seq![OSASCRIPT_SCRIPT_OPTION@, applescript_source(title, body)]),
        ),
        Platform::Windows => Some(
            (
                POWERSHELL@,
                seq![
                    POWERSHELL_NO_PROFILE@,
                    POWERSHELL_NON_INTERACTIVE@,
                    POWERSHELL_COMMAND@,
                    powershell_source(title, body),
                ],
            ),
        ),
        Platform::Other => None,
    }
}

/// The view of a command: its program and its arguments.
pub open spec fn command_view(cmd: NotifyCommand) -> (Seq<char>, Seq<Seq<char>>) {
    (cmd.program@, cmd.args@.map_values(|a: String| a@))
}

/// The view of an optional command.
pub open spec fn opt_command_view(r: Option<NotifyCommand>) -> Option<(Seq<char>, Seq<Seq<char>>)> {
    match r {
        Some(c) => Some(command_view(c)),
        None => None,
    }
}

fn concat3(a: &str, b: &str, c: &str) -> (r: String)
    ensures
        r@ == a@ + b@ + c@,
{
    let mut r = String::from_str(a);
    r.append(b);
    r.append(c);
    r
}

/// The notification command for `platform`: `title` is the branch name and
/// `body` the note text. Both reach the notifier unchanged as separate
/// arguments (Linux), or inside literals that read back as exactly them
/// (macOS, Windows; see `lemma_applescript_escape_reads_back` and
/// `lemma_ps_quote_reads_back`).
pub fn notify_command(platform: Platform, title: &str, body: &str) -> (r: Option<NotifyCommand>)
    ensures
        opt_command_view(r) == spec_notify_command(platform, title@, body@),
{
    match platform {
        Platform::Linux => {
            let args = vec![
                String::from_str(NOTIFY_SEND_APP_NAME),
                String::from_str(title),
                String::from_str(body),
            ];
            let cmd = NotifyCommand { program: String::from_str(NOTIFY_SEND), args };
            assert(command_view(cmd).1 =~= seq![NOTIFY_SEND_APP_NAME@, title@, body@]);
            Some(cmd)
        },
        Platform::MacOs => {
            let head_body = concat3(APPLESCRIPT_HEAD, escape_applescript(body).as_str(), APPLESCRIPT_MIDDLE);
            let script = concat3(head_body.as_str(), escape_applescript(title).as_str(), APPLESCRIPT_TAIL);
            let args = vec![String::from_str(OSASCRIPT_SCRIPT_OPTION), script];
            let cmd = NotifyCommand { program: String::from_str(OSASCRIPT), args };
            assert(command_view(cmd).1 =~= seq![OSASCRIPT_SCRIPT_OPTION@, applescript_source(title@, body@)]);
            Some(cmd)
        },
        Platform::Windows => {
            let head_title = concat3(TOAST_HEAD, ps_quote(title).as_str(), TOAST_MIDDLE);
            let script = concat3(head_title.as_str(), ps_quote(body).as_str(), TOAST_TAIL);
            let args = vec![
                String::from_str(POWERSHELL_NO_PROFILE),
                String::from_str(POWERSHELL_NON_INTERACTIVE),
                String::from_str(POWERSHELL_COMMAND),
                script,
            ];
            let cmd = NotifyCommand { program: String::from_str(POWERSHELL), args };
            assert(command_view(cmd).1 =~= seq![
                POWERSHELL_NO_PROFILE@,
                POWERSHELL_NON_INTERACTIVE@,
                POWERSHELL_COMMAND@,
                powershell_source(title@, body@),
            ]);
            Some(cmd)
        },
        Platform::Other => None,
    }
}

} // verus!
