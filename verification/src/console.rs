//! What a key press or a line typed on the serial console does to the
//! installer, and the text the serial console shows. The caller reads the
//! keys and lines, performs the returned actions and prints the text.

use vstd::prelude::*;
use vstd::string::*;

use crate::app::{
    ActionView, App, AppAction, AppView, ProxyConfigField, Screen, activate_of, after_back, after_cancel_proxy,
    after_proxy_backspace, after_proxy_push, after_switch_field, submit_proxy_of,
    after_collapse, after_expand, after_jump, after_next, after_previous, after_start_proxy,
    next_index, next_of, refresh_action, selected_image_of,
    selected_target_of, started_over,
};
use crate::device::{TargetView, push_size_text, size_text};
use crate::text::{
    decimal, lower, owned, parse_u64, push_char, push_decimal, push_str, spec_parse_u64, str_eq,
    strip_prefix_of, has_prefix, to_ascii_lowercase, trim, trimmed,
};

verus! {

/// What the caller does after an input: leave, or go on after performing
/// the action.
#[derive(Debug)]
pub enum Reply {
    Quit,
    Continue(AppAction),
}

/// A reply as values.
pub ghost enum ReplyView {
    Quit,
    Continue(ActionView),
}

impl View for Reply {
    type V = ReplyView;

    open spec fn view(&self) -> ReplyView {
        match self {
            Reply::Quit => ReplyView::Quit,
            Reply::Continue(a) => ReplyView::Continue(a@),
        }
    }
}

/// Whether the warning pop-up is shown.
pub open spec fn warning_shown(v: AppView) -> bool {
    v.warning is Some && v.screen != Screen::ProxyConfig
}

/// Whether a screen shows a list with a cursor.
pub open spec fn is_list_screen(s: Screen) -> bool {
    s == Screen::ImageSelect || s == Screen::CustomImageSelect || s == Screen::TargetSelect
}

/// The length of the list the screen shows.
pub open spec fn cursor_len(v: AppView) -> nat {
    match v.screen {
        Screen::ImageSelect => v.catalog.images.len(),
        Screen::CustomImageSelect => v.custom_images.len(),
        Screen::TargetSelect => v.devices.len(),
        _ => 0,
    }
}

/// The cursor of the list the screen shows.
pub open spec fn cursor_of(v: AppView) -> nat {
    match v.screen {
        Screen::ImageSelect => v.image_index,
        Screen::CustomImageSelect => v.custom_image_index,
        Screen::TargetSelect => v.target_index,
        _ => 0,
    }
}

/// The state with the cursor of the shown list at `i`.
pub open spec fn with_cursor(v: AppView, i: nat) -> AppView {
    match v.screen {
        Screen::ImageSelect => AppView { image_index: i, ..v },
        Screen::CustomImageSelect => AppView { custom_image_index: i, ..v },
        Screen::TargetSelect => AppView { target_index: i, ..v },
        _ => v,
    }
}

/// The list entry a typed number picks: numbers count from 1.
pub open spec fn select_of(command: Seq<char>, len: nat) -> Option<nat> {
    match spec_parse_u64(command) {
        Some(n) => if n >= 1 && n - 1 < len {
            Some((n - 1) as nat)
        } else {
            None
        },
        None => None,
    }
}

/// The words of a list screen.
pub open spec fn list_command_of(v: AppView, l: Seq<char>, now: u64, available: Option<u64>) -> (AppView, ActionView) {
    if l == ""@ || l == "enter"@ {
        activate_of(v, now, available)
    } else if l == "n"@ || l == "next"@ || l == "j"@ || l == "down"@ {
        (after_next(v), ActionView::Idle)
    } else if l == "p"@ || l == "prev"@ || l == "previous"@ || l == "k"@ || l == "up"@ {
        (after_previous(v), ActionView::Idle)
    } else if l == "b"@ || l == "back"@ {
        (after_back(v), ActionView::Idle)
    } else if l == "r"@ || l == "refresh"@ {
        (v, refresh_action(v))
    } else {
        (v, ActionView::Idle)
    }
}

/// The words of the proxy screen: `time T` fills the time field and
/// submits the active field; `proxy URL` fills the proxy field, then moves
/// on from the time field or else submits; an empty line submits the active
/// field; `n`/`p` and their spellings switch fields; `b` cancels; anything
/// else fills the active field and submits it.
pub open spec fn proxy_command_of(v: AppView, command: Seq<char>, l: Seq<char>) -> (AppView, ActionView) {
    if has_prefix(command, "time "@) {
        submit_proxy_of(AppView { time_input: trimmed(command.subrange(5, command.len() as int)), ..v })
    } else if has_prefix(command, "proxy "@) {
        let w = AppView { proxy_input: trimmed(command.subrange(6, command.len() as int)), ..v };
        if w.proxy_field == ProxyConfigField::Time {
            (after_switch_field(w), ActionView::Idle)
        } else {
            submit_proxy_of(w)
        }
    } else if l == ""@ || l == "enter"@ {
        submit_proxy_of(v)
    } else if l == "n"@ || l == "next"@ || l == "tab"@ || l == "down"@ || l == "p"@ || l == "prev"@
        || l == "previous"@ || l == "up"@ {
        (after_switch_field(v), ActionView::Idle)
    } else if l == "b"@ || l == "back"@ || l == "esc"@ || l == "cancel"@ {
        (after_cancel_proxy(v), ActionView::Idle)
    } else if v.proxy_field == ProxyConfigField::Time {
        submit_proxy_of(AppView { time_input: command, ..v })
    } else {
        submit_proxy_of(AppView { proxy_input: command, ..v })
    }
}

/// What a line typed on the serial console does, with the clock at `now`
/// and `available` bytes of RAM free.
pub open spec fn serial_command_of(v: AppView, line: Seq<char>, now: u64, available: Option<u64>) -> (AppView, ReplyView) {
    let command = trimmed(line);
    let l = lower(command);
    if (l == "q"@ || l == "quit"@) && v.screen != Screen::Installing {
        (v, ReplyView::Quit)
    } else if warning_shown(v) {
        if l == "p"@ {
            (after_start_proxy(v), ReplyView::Continue(ActionView::Idle))
        } else {
            (AppView { warning: None, ..v }, ReplyView::Continue(ActionView::Idle))
        }
    } else {
        let (w, a) = match v.screen {
            Screen::Welcome => if command.len() == 0 || l == "enter"@ || l == "next"@ {
                activate_of(v, now, available)
            } else {
                (v, ActionView::Idle)
            },
            Screen::ImageSelect | Screen::CustomImageSelect | Screen::TargetSelect => match select_of(
                command,
                cursor_len(v),
            ) {
                Some(i) => activate_of(with_cursor(v, i), now, available),
                None => list_command_of(v, l, now, available),
            },
            Screen::Confirm => if l == ""@ || l == "enter"@ || l == "y"@ || l == "yes"@ || l
                == "flash"@ {
                activate_of(v, now, available)
            } else if l == "b"@ || l == "back"@ {
                (after_back(v), ActionView::Idle)
            } else {
                (v, ActionView::Idle)
            },
            Screen::Installing => (v, ActionView::Idle),
            Screen::Complete | Screen::Error => if l == ""@ || l == "enter"@ {
                activate_of(v, now, available)
            } else if l == "r"@ || l == "restart"@ {
                (started_over(v), ActionView::Idle)
            } else {
                (v, ActionView::Idle)
            },
            Screen::ProxyConfig => proxy_command_of(v, command, l),
        };
        (w, ReplyView::Continue(a))
    }
}

/// The entry a typed number picks (see `select_of`).
pub fn serial_select_index(command: &str, len: usize) -> (r: Option<usize>)
    ensures
        match r {
            Some(i) => select_of(command@, len as nat) == Some(i as nat),
            None => select_of(command@, len as nat) is None,
        },
{
    match parse_u64(command) {
        Some(n) => if n >= 1 && n - 1 < len as u64 {
            Some((n - 1) as usize)
        } else {
            None
        },
        None => None,
    }
}

/// Moves the cursor of the shown list to `index` with the down key, as
/// often as it takes.
fn move_cursor_to(app: &mut App, index: usize)
    requires
        old(app).wf(),
        is_list_screen(old(app)@.screen),
        index < cursor_len(old(app)@),
    ensures
        final(app).wf(),
        final(app)@ == with_cursor(old(app)@, index as nat),
{
    let ghost v0 = app@;
    let len = match app.screen() {
        Screen::ImageSelect => app.catalog().images.len(),
        Screen::CustomImageSelect => app.custom_images().len(),
        _ => app.devices().len(),
    };
    let mut current = match app.screen() {
        Screen::ImageSelect => app.image_index(),
        Screen::CustomImageSelect => app.custom_image_index(),
        _ => app.target_index(),
    };
    assert(app@ =~~= with_cursor(v0, current as nat));
    while current != index
        invariant
            app.wf(),
            is_list_screen(v0.screen),
            len == cursor_len(v0),
            index < len,
            current < len,
            app@ == with_cursor(v0, current as nat),
        decreases if current <= index {
            index - current
        } else {
            index + len - current
        },
    {
        app.next();
        proof {
            crate::app::lemma_next_of_value(current as nat, len as nat);
        }
        current = if current + 1 == len {
            0
        } else {
            current + 1
        };
        assert(app@ =~~= with_cursor(v0, current as nat));
    }
}

/// Performs the words of a list screen (see `list_command_of`).
fn serial_handle_list_command(app: &mut App, l: &str, now: u64, available: Option<u64>) -> (r: AppAction)
    requires
        old(app).wf(),
    ensures
        final(app).wf(),
        (final(app)@, r@) == list_command_of(old(app)@, l@, now, available),
{
    if str_eq(l, "") || str_eq(l, "enter") {
        app.activate_selected(now, available)
    } else if str_eq(l, "n") || str_eq(l, "next") || str_eq(l, "j") || str_eq(l, "down") {
        app.next();
        AppAction::Idle
    } else if str_eq(l, "p") || str_eq(l, "prev") || str_eq(l, "previous") || str_eq(l, "k")
        || str_eq(l, "up") {
        app.previous();
        AppAction::Idle
    } else if str_eq(l, "b") || str_eq(l, "back") {
        app.back();
        AppAction::Idle
    } else if str_eq(l, "r") || str_eq(l, "refresh") {
        app.refresh_devices()
    } else {
        AppAction::Idle
    }
}

/// Performs the words of the proxy entry (see `proxy_command_of`).
fn serial_handle_proxy_config_command(app: &mut App, command: &str, l: &str) -> (r: AppAction)
    requires
        old(app).wf(),
    ensures
        final(app).wf(),
        (final(app)@, r@) == proxy_command_of(old(app)@, command@, l@),
{
    proof {
        reveal_strlit("time ");
        reveal_strlit("proxy ");
    }
    match strip_prefix_of(command, "time ") {
        Some(rest) => {
            app.set_proxy_time_input(trim(rest.as_str()));
            return app.submit_proxy_config();
        },
        None => {},
    }
    match strip_prefix_of(command, "proxy ") {
        Some(rest) => {
            app.set_proxy_input(trim(rest.as_str()));
            if app.proxy_config_field() == ProxyConfigField::Time {
                app.next_proxy_field();
                return AppAction::Idle;
            }
            return app.submit_proxy_config();
        },
        None => {},
    }
    if str_eq(l, "") || str_eq(l, "enter") {
        app.submit_proxy_config()
    } else if str_eq(l, "n") || str_eq(l, "next") || str_eq(l, "tab") || str_eq(l, "down")
        || str_eq(l, "p") || str_eq(l, "prev") || str_eq(l, "previous") || str_eq(l, "up") {
        app.next_proxy_field();
        AppAction::Idle
    } else if str_eq(l, "b") || str_eq(l, "back") || str_eq(l, "esc") || str_eq(l, "cancel") {
        app.cancel_proxy_config();
        AppAction::Idle
    } else if app.proxy_config_field() == ProxyConfigField::Time {
        app.set_proxy_time_input(owned(command));
        app.submit_proxy_config()
    } else {
        app.set_proxy_input(owned(command));
        app.submit_proxy_config()
    }
}

/// Performs a line typed on the serial console (see `serial_command_of`).
pub fn serial_handle_command(app: &mut App, line: &str, now: u64, available: Option<u64>) -> (r: Reply)
    requires
        old(app).wf(),
    ensures
        final(app).wf(),
        (final(app)@, r@) == serial_command_of(old(app)@, line@, now, available),
{
    let command = trim(line);
    let l = to_ascii_lowercase(command.as_str());
    if (str_eq(l.as_str(), "q") || str_eq(l.as_str(), "quit")) && app.can_quit() {
        return Reply::Quit;
    }
    if app.has_warning() {
        if str_eq(l.as_str(), "p") {
            app.start_proxy_config();
        } else {
            app.dismiss_warning();
        }
        return Reply::Continue(AppAction::Idle);
    }
    let action = match app.screen() {
        Screen::Welcome => {
            if command.as_str().unicode_len() == 0 || str_eq(l.as_str(), "enter") || str_eq(
                l.as_str(),
                "next",
            ) {
                app.activate_selected(now, available)
            } else {
                AppAction::Idle
            }
        },
        Screen::ImageSelect | Screen::CustomImageSelect | Screen::TargetSelect => {
            let len = match app.screen() {
                Screen::ImageSelect => app.catalog().images.len(),
                Screen::CustomImageSelect => app.custom_images().len(),
                _ => app.devices().len(),
            };
            match serial_select_index(command.as_str(), len) {
                Some(index) => {
                    move_cursor_to(app, index);
                    app.activate_selected(now, available)
                },
                None => serial_handle_list_command(app, l.as_str(), now, available),
            }
        },
        Screen::Confirm => {
            if str_eq(l.as_str(), "") || str_eq(l.as_str(), "enter") || str_eq(l.as_str(), "y")
                || str_eq(l.as_str(), "yes") || str_eq(l.as_str(), "flash") {
                app.activate_selected(now, available)
            } else if str_eq(l.as_str(), "b") || str_eq(l.as_str(), "back") {
                app.back();
                AppAction::Idle
            } else {
                AppAction::Idle
            }
        },
        Screen::Installing => AppAction::Idle,
        Screen::Complete | Screen::Error => {
            if str_eq(l.as_str(), "") || str_eq(l.as_str(), "enter") {
                app.activate_selected(now, available)
            } else if str_eq(l.as_str(), "r") || str_eq(l.as_str(), "restart") {
                app.start_over();
                AppAction::Idle
            } else {
                AppAction::Idle
            }
        },
        Screen::ProxyConfig => serial_handle_proxy_config_command(app, command.as_str(), l.as_str()),
    };
    Reply::Continue(action)
}

/// A key of the terminal, as the installer tells them apart.
#[derive(Clone, Copy, Debug, PartialEq, Eq, Structural)]
pub enum KeyInput {
    Char(char),
    Enter,
    Esc,
    Backspace,
    Tab,
    BackTab,
    Up,
    Down,
    Left,
    Right,
    Other,
}

/// What a key press does in the terminal interface; `ctrl` tells whether
/// Control was held.
pub open spec fn key_reply_of(v: AppView, key: KeyInput, ctrl: bool, now: u64, available: Option<u64>) -> (AppView, ReplyView) {
    if (key == KeyInput::Char('q') || key == KeyInput::Char('Q')) && v.screen != Screen::Installing {
        (v, ReplyView::Quit)
    } else if key == KeyInput::Char('c') && ctrl {
        (v, ReplyView::Quit)
    } else if warning_shown(v) {
        if key == KeyInput::Enter || key == KeyInput::Esc {
            (AppView { warning: None, ..v }, ReplyView::Continue(ActionView::Idle))
        } else if key == KeyInput::Char('p') || key == KeyInput::Char('P') {
            (after_start_proxy(v), ReplyView::Continue(ActionView::Idle))
        } else {
            (v, ReplyView::Continue(ActionView::Idle))
        }
    } else if v.screen == Screen::ProxyConfig {
        match key {
            KeyInput::Enter => {
                let (w, a) = submit_proxy_of(v);
                (w, ReplyView::Continue(a))
            },
            KeyInput::Esc => (after_cancel_proxy(v), ReplyView::Continue(ActionView::Idle)),
            KeyInput::Tab | KeyInput::Down | KeyInput::BackTab | KeyInput::Up => (
                after_switch_field(v),
                ReplyView::Continue(ActionView::Idle),
            ),
            KeyInput::Backspace => (after_proxy_backspace(v), ReplyView::Continue(ActionView::Idle)),
            KeyInput::Char(ch) => (after_proxy_push(v, ch), ReplyView::Continue(ActionView::Idle)),
            _ => (v, ReplyView::Continue(ActionView::Idle)),
        }
    } else if v.screen == Screen::Installing {
        if key == KeyInput::Char(' ') || key == KeyInput::Up || key == KeyInput::Char('w') || key
            == KeyInput::Char('W') {
            (after_jump(v), ReplyView::Continue(ActionView::Idle))
        } else {
            (v, ReplyView::Continue(ActionView::Idle))
        }
    } else if v.screen == Screen::Complete || v.screen == Screen::Error {
        if key == KeyInput::Enter {
            let (w, a) = activate_of(v, now, available);
            (w, ReplyView::Continue(a))
        } else if key == KeyInput::Char('r') || key == KeyInput::Char('R') {
            (started_over(v), ReplyView::Continue(ActionView::Idle))
        } else {
            (v, ReplyView::Continue(ActionView::Idle))
        }
    } else if key == KeyInput::Right && v.screen == Screen::TargetSelect {
        (after_expand(v), ReplyView::Continue(ActionView::Idle))
    } else if key == KeyInput::Left && v.screen == Screen::TargetSelect {
        (after_collapse(v), ReplyView::Continue(ActionView::Idle))
    } else if key == KeyInput::Up || key == KeyInput::Char('k') || key == KeyInput::Char('K') {
        (after_previous(v), ReplyView::Continue(ActionView::Idle))
    } else if key == KeyInput::Down || key == KeyInput::Char('j') || key == KeyInput::Char('J') {
        (after_next(v), ReplyView::Continue(ActionView::Idle))
    } else if key == KeyInput::Enter {
        let (w, a) = activate_of(v, now, available);
        (w, ReplyView::Continue(a))
    } else if key == KeyInput::Backspace {
        (after_back(v), ReplyView::Continue(ActionView::Idle))
    } else if key == KeyInput::Char('r') || key == KeyInput::Char('R') {
        (v, ReplyView::Continue(refresh_action(v)))
    } else if key == KeyInput::Esc {
        (v, ReplyView::Quit)
    } else {
        (v, ReplyView::Continue(ActionView::Idle))
    }
}

/// Performs a key press (see `key_reply_of`).
pub fn handle_key(app: &mut App, key: KeyInput, ctrl: bool, now: u64, available: Option<u64>) -> (r: Reply)
    requires
        old(app).wf(),
    ensures
        final(app).wf(),
        (final(app)@, r@) == key_reply_of(old(app)@, key, ctrl, now, available),
{
    if (key == KeyInput::Char('q') || key == KeyInput::Char('Q')) && app.can_quit() {
        return Reply::Quit;
    }
    if key == KeyInput::Char('c') && ctrl {
        return Reply::Quit;
    }
    if app.has_warning() {
        if key == KeyInput::Enter || key == KeyInput::Esc {
            app.dismiss_warning();
        } else if key == KeyInput::Char('p') || key == KeyInput::Char('P') {
            app.start_proxy_config();
        }
        return Reply::Continue(AppAction::Idle);
    }
    let screen = app.screen();
    if screen == Screen::ProxyConfig {
        return match key {
            KeyInput::Enter => Reply::Continue(app.submit_proxy_config()),
            KeyInput::Esc => {
                app.cancel_proxy_config();
                Reply::Continue(AppAction::Idle)
            },
            KeyInput::Tab | KeyInput::Down => {
                app.next_proxy_field();
                Reply::Continue(AppAction::Idle)
            },
            KeyInput::BackTab | KeyInput::Up => {
                app.previous_proxy_field();
                Reply::Continue(AppAction::Idle)
            },
            KeyInput::Backspace => {
                app.proxy_backspace();
                Reply::Continue(AppAction::Idle)
            },
            KeyInput::Char(ch) => {
                app.proxy_push(ch);
                Reply::Continue(AppAction::Idle)
            },
            _ => Reply::Continue(AppAction::Idle),
        };
    }
    if screen == Screen::Installing {
        if key == KeyInput::Char(' ') || key == KeyInput::Up || key == KeyInput::Char('w') || key
            == KeyInput::Char('W') {
            app.runner_jump_or_restart();
        }
        return Reply::Continue(AppAction::Idle);
    }
    if screen == Screen::Complete || screen == Screen::Error {
        if key == KeyInput::Enter {
            return Reply::Continue(app.activate_selected(now, available));
        } else if key == KeyInput::Char('r') || key == KeyInput::Char('R') {
            app.start_over();
        }
        return Reply::Continue(AppAction::Idle);
    }
    if key == KeyInput::Right && screen == Screen::TargetSelect {
        app.expand_target();
        Reply::Continue(AppAction::Idle)
    } else if key == KeyInput::Left && screen == Screen::TargetSelect {
        app.collapse_target();
        Reply::Continue(AppAction::Idle)
    } else if key == KeyInput::Up || key == KeyInput::Char('k') || key == KeyInput::Char('K') {
        app.previous();
        Reply::Continue(AppAction::Idle)
    } else if key == KeyInput::Down || key == KeyInput::Char('j') || key == KeyInput::Char('J') {
        app.next();
        Reply::Continue(AppAction::Idle)
    } else if key == KeyInput::Enter {
        Reply::Continue(app.activate_selected(now, available))
    } else if key == KeyInput::Backspace {
        app.back();
        Reply::Continue(AppAction::Idle)
    } else if key == KeyInput::Char('r') || key == KeyInput::Char('R') {
        Reply::Continue(app.refresh_devices())
    } else if key == KeyInput::Esc {
        Reply::Quit
    } else {
        Reply::Continue(AppAction::Idle)
    }
}

/// A byte count as the serial console shows it: in the largest binary unit
/// it reaches, or `unknown`.
pub open spec fn serial_bytes_text(b: Option<u64>) -> Seq<char> {
    match b {
        Some(n) => size_text(n as nat),
        None => "unknown"@,
    }
}

/// A byte count as the serial console shows it (see `serial_bytes_text`).
pub fn serial_format_bytes(bytes: Option<u64>) -> (r: String)
    ensures
        r@ == serial_bytes_text(bytes),
{
    match bytes {
        Some(b) => {
            let mut s = String::new();
            push_size_text(&mut s, b);
            s
        },
        None => owned("unknown"),
    }
}

/// Progress as `current / total`, or the current count alone when the total
/// is unknown.
pub open spec fn serial_progress_text(current: u64, total: Option<u64>) -> Seq<char> {
    match total {
        Some(t) => size_text(current as nat) + " / "@ + size_text(t as nat),
        None => size_text(current as nat),
    }
}

/// Progress as the serial console shows it (see `serial_progress_text`).
pub fn serial_format_progress(current: u64, total: Option<u64>) -> (r: String)
    ensures
        r@ == serial_progress_text(current, total),
{
    let mut s = String::new();
    push_size_text(&mut s, current);
    match total {
        Some(t) => {
            push_str(&mut s, " / ");
            push_size_text(&mut s, t);
        },
        None => {},
    }
    s
}

/// `n` spaces.
pub open spec fn spaces(n: nat) -> Seq<char> {
    Seq::new(n, |i: int| ' ')
}

fn push_spaces(s: &mut String, n: usize)
    ensures
        final(s)@ == old(s)@ + spaces(n as nat),
{
    let mut i: usize = 0;
    while i < n
        invariant
            i <= n,
            s@ == old(s)@ + spaces(i as nat),
        decreases n - i,
    {
        push_char(s, ' ');
        assert(s@ =~= old(s)@ + spaces((i + 1) as nat));
        i = i + 1;
    }
}

/// An input field's text padded with spaces to `min_width` bytes of UTF-8.
pub open spec fn input_display_of(value: Seq<char>, min_width: nat) -> Seq<char> {
    if value.len() == 0 {
        spaces(min_width)
    } else if (vstd::utf8::encode_utf8(value).len() as usize) < min_width {
        value + spaces((min_width - (vstd::utf8::encode_utf8(value).len() as usize)) as nat)
    } else {
        value
    }
}

/// An input field's text padded for the serial console (see
/// `input_display_of`).
pub fn serial_input_display(value: &str, min_width: usize) -> (r: String)
    ensures
        r@ == input_display_of(value@, min_width as nat),
{
    let mut s = String::new();
    if value.unicode_len() == 0 {
        push_spaces(&mut s, min_width);
        return s;
    }
    push_str(&mut s, value);
    let bytes = value.len();
    if bytes < min_width {
        push_spaces(&mut s, min_width - bytes);
    }
    s
}

/// The name of the image the screen is about, or `none`.
pub open spec fn image_name_text(v: AppView) -> Seq<char> {
    match selected_image_of(v) {
        Some(i) => i.name,
        None => "none"@,
    }
}

/// The image the screen is about, by name.
pub fn serial_selected_image_name(app: &App) -> (r: String)
    ensures
        r@ == image_name_text(app@),
{
    match app.selected_image() {
        Some(image) => image.name.clone(),
        None => owned("none"),
    }
}

/// The target under the cursor, by name and path, or `none`.
pub open spec fn target_name_text(v: AppView) -> Seq<char> {
    match selected_target_of(v) {
        Some(t) => t.name + " ("@ + t.path + ")"@,
        None => "none"@,
    }
}

/// The target under the cursor, by name and path.
pub fn serial_selected_target_name(app: &App) -> (r: String)
    ensures
        r@ == target_name_text(app@),
{
    match app.selected_target() {
        Some(target) => {
            let mut s = target.name.clone();
            push_str(&mut s, " (");
            push_str(&mut s, target.path.as_str());
            push_str(&mut s, ")");
            s
        },
        None => owned("none"),
    }
}

/// A screen's name as the serial console shows it.
pub open spec fn screen_name(s: Screen) -> Seq<char> {
    match s {
        Screen::Welcome => "Welcome"@,
        Screen::ImageSelect => "ImageSelect"@,
        Screen::CustomImageSelect => "CustomImageSelect"@,
        Screen::TargetSelect => "TargetSelect"@,
        Screen::Confirm => "Confirm"@,
        Screen::Installing => "Installing"@,
        Screen::Complete => "Complete"@,
        Screen::Error => "Error"@,
        Screen::ProxyConfig => "ProxyConfig"@,
    }
}

fn screen_label(s: Screen) -> (r: &'static str)
    ensures
        r@ == screen_name(s),
{
    match s {
        Screen::Welcome => "Welcome",
        Screen::ImageSelect => "ImageSelect",
        Screen::CustomImageSelect => "CustomImageSelect",
        Screen::TargetSelect => "TargetSelect",
        Screen::Confirm => "Confirm",
        Screen::Installing => "Installing",
        Screen::Complete => "Complete",
        Screen::Error => "Error",
        Screen::ProxyConfig => "ProxyConfig",
    }
}

/// A list number right-aligned in two columns.
pub open spec fn pad2(n: nat) -> Seq<char> {
    if n < 10 {
        " "@ + decimal(n)
    } else {
        decimal(n)
    }
}

/// One entry of a numbered list: a `>` marks the cursor.
pub open spec fn entry_line(selected: bool, number: nat, text: Seq<char>) -> Seq<char> {
    (if selected {
        ">"@
    } else {
        " "@
    }) + " "@ + pad2(number) + ". "@ + text + "\r\n"@
}

/// A numbered list of entries with the cursor at `cursor`.
pub open spec fn list_text(texts: Seq<Seq<char>>, cursor: nat) -> Seq<char>
    decreases texts.len(),
{
    if texts.len() == 0 {
        Seq::empty()
    } else {
        list_text(texts.drop_last(), cursor) + entry_line(
            (texts.len() - 1) as nat == cursor,
            texts.len() as nat,
            texts.last(),
        )
    }
}

fn push_entry_line(s: &mut String, selected: bool, number: usize, text: &str)
    ensures
        final(s)@ == old(s)@ + entry_line(selected, number as nat, text@),
{
    push_str(s, if selected { ">" } else { " " });
    push_str(s, " ");
    if number < 10 {
        push_str(s, " ");
    }
    push_decimal(s, number as u64);
    push_str(s, ". ");
    push_str(s, text);
    push_str(s, "\r\n");
}

/// The text of a target's entry in the serial list.
pub open spec fn target_entry_text(t: TargetView) -> Seq<char> {
    t.name + "  "@ + t.path + "  "@ + serial_bytes_text(t.size_bytes)
}

/// The part of the serial screen below the status line.
pub open spec fn serial_body_of(v: AppView) -> Seq<char> {
    match v.screen {
        Screen::Welcome => "\r\nPress Enter to choose an image, or Q to quit.\r\n"@,
        Screen::ImageSelect => "\r\nImages:\r\n"@ + list_text(
            Seq::new(v.catalog.images.len(), |i: int| v.catalog.images[i].name),
            v.image_index,
        ) + "\r\nType a number, Enter to select, N/P to move, R to rescan, Q to quit.\r\n"@,
        Screen::CustomImageSelect => "\r\nCustom images:\r\n"@ + list_text(
            Seq::new(v.custom_images.len(), |i: int| v.custom_images[i].name),
            v.custom_image_index,
        ) + "\r\nType a number, Enter to select, N/P to move, R to rescan.\r\n"@,
        Screen::TargetSelect => "\r\nTargets:\r\n"@ + list_text(
            Seq::new(v.devices.len(), |i: int| target_entry_text(v.devices[i])),
            v.target_index,
        ) + "\r\nType a number, Enter to select, N/P to move, R to rescan.\r\n"@,
        Screen::Confirm => "\r\nImage: "@ + image_name_text(v) + "\r\n"@ + "Target: "@ + target_name_text(v)
            + "\r\n"@ + "\r\nType YES or press Enter to flash. Type B to go back.\r\n"@,
        Screen::Installing => (match v.progress {
            Some(p) => "\r\nPhase: "@ + p.phase + "\r\n"@ + "Written: "@ + serial_progress_text(
                p.current,
                p.total,
            ) + "\r\n"@ + match p.source_current {
                Some(c) => "Downloaded: "@ + serial_progress_text(c, p.source_total) + "\r\n"@,
                None => Seq::empty(),
            },
            None => Seq::empty(),
        }) + "\r\nInstall is running. Ctrl-C exits this serial UI only.\r\n"@,
        Screen::Complete | Screen::Error => "\r\n"@ + v.status + "\r\n"@
            + "\r\nPress Enter to continue, R to restart, or Q to quit.\r\n"@,
        Screen::ProxyConfig => (match v.warning {
            Some(w) => "\r\nCatalog load failed:\r\n"@ + w + "\r\n"@,
            None => Seq::empty(),
        }) + "\r\nUTC time: ["@ + input_display_of(v.time_input, 19) + "]\r\nProxy: ["@
            + input_display_of(v.proxy_input, 36) + "]\r\n"@
            + "\r\nType 'time YYYY-MM-DD HH:MM:SS', then 'proxy http://host:port'. Press Enter to submit the active field, N/P to switch fields, or B to cancel.\r\n"@,
    }
}

/// The text the serial console prints for the state: the screen's name,
/// then the warning when one is shown, else the status and the screen.
pub open spec fn serial_text_of(v: AppView) -> Seq<char> {
    let head = "\r\n\r\n=== TOBI "@ + screen_name(v.screen) + " ===\r\n"@;
    if warning_shown(v) {
        head + "\r\nWARNING:\r\n"@ + v.warning.unwrap() + "\r\n"@
            + "\r\nPress Enter to continue, P to configure proxy, or Q to quit.\r\n"@
    } else {
        head + "Status: "@ + v.status + "\r\n"@ + serial_body_of(v)
    }
}

fn push_image_list(s: &mut String, app: &App)
    ensures
        final(s)@ == old(s)@ + list_text(
            Seq::new(app@.catalog.images.len(), |i: int| app@.catalog.images[i].name),
            app@.image_index,
        ),
{
    let ghost v = app@;
    let images = &app.catalog().images;
    let ghost texts = Seq::new(v.catalog.images.len(), |i: int| v.catalog.images[i].name);
    let ghost start = s@;
    let mut i: usize = 0;
    assert(texts.take(0) =~= Seq::<Seq<char>>::empty());
    while i < images.len()
        invariant
            i <= images@.len(),
            images@.len() == texts.len(),
            v.catalog.images == crate::manifest::images_view(images@),
            texts == Seq::new(v.catalog.images.len(), |i: int| v.catalog.images[i].name),
            s@ == start + list_text(texts.take(i as int), v.image_index),
            app@ == v,
        decreases images@.len() - i,
    {
        assert(texts.take(i + 1).drop_last() =~= texts.take(i as int));
        assert(texts[i as int] == images@[i as int]@.name);
        push_entry_line(s, i == app.image_index(), i + 1, images[i].name.as_str());
        assert(s@ =~= start + list_text(texts.take(i + 1), v.image_index));
        i = i + 1;
    }
    assert(texts.take(texts.len() as int) =~= texts);
}

fn push_custom_list(s: &mut String, app: &App)
    ensures
        final(s)@ == old(s)@ + list_text(
            Seq::new(app@.custom_images.len(), |i: int| app@.custom_images[i].name),
            app@.custom_image_index,
        ),
{
    let ghost v = app@;
    let images = app.custom_images();
    let ghost texts = Seq::new(v.custom_images.len(), |i: int| v.custom_images[i].name);
    let ghost start = s@;
    let mut i: usize = 0;
    assert(texts.take(0) =~= Seq::<Seq<char>>::empty());
    while i < images.len()
        invariant
            i <= images@.len(),
            images@.len() == texts.len(),
            v.custom_images == crate::sort::views(images@),
            texts == Seq::new(v.custom_images.len(), |i: int| v.custom_images[i].name),
            s@ == start + list_text(texts.take(i as int), v.custom_image_index),
            app@ == v,
        decreases images@.len() - i,
    {
        assert(texts.take(i + 1).drop_last() =~= texts.take(i as int));
        assert(texts[i as int] == images@[i as int]@.name);
        push_entry_line(s, i == app.custom_image_index(), i + 1, images[i].name.as_str());
        assert(s@ =~= start + list_text(texts.take(i + 1), v.custom_image_index));
        i = i + 1;
    }
    assert(texts.take(texts.len() as int) =~= texts);
}

fn push_target_list(s: &mut String, app: &App)
    ensures
        final(s)@ == old(s)@ + list_text(
            Seq::new(app@.devices.len(), |i: int| target_entry_text(app@.devices[i])),
            app@.target_index,
        ),
{
    let ghost v = app@;
    let targets = app.devices();
    let ghost texts = Seq::new(v.devices.len(), |i: int| target_entry_text(v.devices[i]));
    let ghost start = s@;
    let mut i: usize = 0;
    assert(texts.take(0) =~= Seq::<Seq<char>>::empty());
    while i < targets.len()
        invariant
            i <= targets@.len(),
            targets@.len() == texts.len(),
            v.devices == crate::device::targets_view(targets@),
            texts == Seq::new(v.devices.len(), |i: int| target_entry_text(v.devices[i])),
            s@ == start + list_text(texts.take(i as int), v.target_index),
            app@ == v,
        decreases targets@.len() - i,
    {
        assert(texts.take(i + 1).drop_last() =~= texts.take(i as int));
        assert(texts[i as int] == target_entry_text(targets@[i as int]@));
        let t = &targets[i];
        let mut text = t.name.clone();
        push_str(&mut text, "  ");
        push_str(&mut text, t.path.as_str());
        push_str(&mut text, "  ");
        let size = serial_format_bytes(t.size_bytes);
        push_str(&mut text, size.as_str());
        push_entry_line(s, i == app.target_index(), i + 1, text.as_str());
        assert(s@ =~= start + list_text(texts.take(i + 1), v.target_index));
        i = i + 1;
    }
    assert(texts.take(texts.len() as int) =~= texts);
}

fn push_progress(s: &mut String, app: &App)
    ensures
        final(s)@ == old(s)@ + (match app@.progress {
            Some(p) => "\r\nPhase: "@ + p.phase + "\r\n"@ + "Written: "@ + serial_progress_text(
                p.current,
                p.total,
            ) + "\r\n"@ + match p.source_current {
                Some(c) => "Downloaded: "@ + serial_progress_text(c, p.source_total) + "\r\n"@,
                None => Seq::empty(),
            },
            None => Seq::empty(),
        }),
{
    match app.progress() {
        Some(p) => {
            push_str(s, "\r\nPhase: ");
            push_str(s, p.phase.as_str());
            push_str(s, "\r\n");
            push_str(s, "Written: ");
            let written = serial_format_progress(p.current, p.total);
            push_str(s, written.as_str());
            push_str(s, "\r\n");
            match p.source_current {
                Some(c) => {
                    push_str(s, "Downloaded: ");
                    let downloaded = serial_format_progress(c, p.source_total);
                    push_str(s, downloaded.as_str());
                    push_str(s, "\r\n");
                },
                None => {},
            }
        },
        None => {
            assert(s@ =~= old(s)@ + Seq::<char>::empty());
        },
    }
}

fn push_serial_body(s: &mut String, app: &App)
    requires
        app.wf(),
    ensures
        final(s)@ == old(s)@ + serial_body_of(app@),
{
    match app.screen() {
        Screen::Welcome => {
            push_str(s, "\r\nPress Enter to choose an image, or Q to quit.\r\n");
        },
        Screen::ImageSelect => {
            push_str(s, "\r\nImages:\r\n");
            push_image_list(s, app);
            push_str(s, "\r\nType a number, Enter to select, N/P to move, R to rescan, Q to quit.\r\n");
        },
        Screen::CustomImageSelect => {
            push_str(s, "\r\nCustom images:\r\n");
            push_custom_list(s, app);
            push_str(s, "\r\nType a number, Enter to select, N/P to move, R to rescan.\r\n");
        },
        Screen::TargetSelect => {
            push_str(s, "\r\nTargets:\r\n");
            push_target_list(s, app);
            push_str(s, "\r\nType a number, Enter to select, N/P to move, R to rescan.\r\n");
        },
        Screen::Confirm => {
            push_str(s, "\r\nImage: ");
            let name = serial_selected_image_name(app);
            push_str(s, name.as_str());
            push_str(s, "\r\n");
            push_str(s, "Target: ");
            let target = serial_selected_target_name(app);
            push_str(s, target.as_str());
            push_str(s, "\r\n");
            push_str(s, "\r\nType YES or press Enter to flash. Type B to go back.\r\n");
        },
        Screen::Installing => {
            push_progress(s, app);
            push_str(s, "\r\nInstall is running. Ctrl-C exits this serial UI only.\r\n");
        },
        Screen::Complete | Screen::Error => {
            push_str(s, "\r\n");
            push_str(s, app.status());
            push_str(s, "\r\n");
            push_str(s, "\r\nPress Enter to continue, R to restart, or Q to quit.\r\n");
        },
        Screen::ProxyConfig => {
            let ghost before = s@;
            match app.warning() {
                Some(w) => {
                    push_str(s, "\r\nCatalog load failed:\r\n");
                    push_str(s, w);
                    push_str(s, "\r\n");
                },
                None => {},
            }
            push_str(s, "\r\nUTC time: [");
            let time = serial_input_display(app.proxy_time_input(), 19);
            push_str(s, time.as_str());
            push_str(s, "]\r\nProxy: [");
            let shown = serial_input_display(app.proxy_input(), 36);
            push_str(s, shown.as_str());
            push_str(s, "]\r\n");
            push_str(
                s,
                "\r\nType 'time YYYY-MM-DD HH:MM:SS', then 'proxy http://host:port'. Press Enter to submit the active field, N/P to switch fields, or B to cancel.\r\n",
            );
        },
    }
    assert(s@ =~= old(s)@ + serial_body_of(app@));
}

/// The text the serial console prints (see `serial_text_of`).
pub fn serial_render(app: &App) -> (r: String)
    requires
        app.wf(),
    ensures
        r@ == serial_text_of(app@),
{
    let mut s = owned("\r\n\r\n=== TOBI ");
    push_str(&mut s, screen_label(app.screen()));
    push_str(&mut s, " ===\r\n");
    if app.has_warning() {
        push_str(&mut s, "\r\nWARNING:\r\n");
        match app.warning() {
            Some(w) => push_str(&mut s, w),
            None => {},
        }
        push_str(&mut s, "\r\n");
        push_str(&mut s, "\r\nPress Enter to continue, P to configure proxy, or Q to quit.\r\n");
        return s;
    }
    push_str(&mut s, "Status: ");
    push_str(&mut s, app.status());
    push_str(&mut s, "\r\n");
    push_serial_body(&mut s, app);
    s
}


/// On a list screen with no warning shown, the arrow keys move the cursor as
/// the letter keys do: Down (like `j`) to the next entry, wrapping from the
/// last to the first, and Up (like `k`) to the previous one, wrapping from
/// the first to the last; the screen and the list stay as they were.
pub proof fn lemma_arrows_move_cursor(v: AppView, ctrl: bool, now: u64, available: Option<u64>)
    requires
        !warning_shown(v),
        is_list_screen(v.screen),
    ensures
        key_reply_of(v, KeyInput::Down, ctrl, now, available) == key_reply_of(v, KeyInput::Char('j'), ctrl, now, available),
        key_reply_of(v, KeyInput::Up, ctrl, now, available) == key_reply_of(v, KeyInput::Char('k'), ctrl, now, available),
        key_reply_of(v, KeyInput::Down, ctrl, now, available) == (after_next(v), ReplyView::Continue(ActionView::Idle)),
        key_reply_of(v, KeyInput::Up, ctrl, now, available) == (after_previous(v), ReplyView::Continue(ActionView::Idle)),
        key_reply_of(v, KeyInput::Down, ctrl, now, available).0.screen == v.screen,
        key_reply_of(v, KeyInput::Up, ctrl, now, available).0.screen == v.screen,
        cursor_len(key_reply_of(v, KeyInput::Down, ctrl, now, available).0) == cursor_len(v),
        cursor_len(key_reply_of(v, KeyInput::Up, ctrl, now, available).0) == cursor_len(v),
        cursor_len(v) > 0 ==> cursor_of(key_reply_of(v, KeyInput::Down, ctrl, now, available).0) == (
        cursor_of(v) + 1) % cursor_len(v),
        cursor_len(v) > 0 ==> cursor_of(key_reply_of(v, KeyInput::Up, ctrl, now, available).0) == (
        (cursor_of(v) + cursor_len(v) - 1) as int) % (cursor_len(v) as int),
{
}


/// Ctrl-C leaves from every screen, and `q` from every screen but the
/// install in progress, which no `q` ever interrupts; neither changes the
/// state. On a list screen with no warning shown, Esc leaves too.
pub proof fn lemma_quit_keys(v: AppView, ctrl: bool, now: u64, available: Option<u64>)
    ensures
        key_reply_of(v, KeyInput::Char('c'), true, now, available) == (v, ReplyView::Quit),
        v.screen != Screen::Installing ==> key_reply_of(v, KeyInput::Char('q'), ctrl, now, available)
            == (v, ReplyView::Quit),
        v.screen != Screen::Installing ==> key_reply_of(v, KeyInput::Char('Q'), ctrl, now, available)
            == (v, ReplyView::Quit),
        v.screen == Screen::Installing ==> key_reply_of(v, KeyInput::Char('q'), false, now, available).1
            != ReplyView::Quit,
        v.screen == Screen::Installing && !warning_shown(v) ==> key_reply_of(
            v,
            KeyInput::Char('q'),
            false,
            now,
            available,
        ).0 == v,
        is_list_screen(v.screen) && !warning_shown(v) ==> key_reply_of(v, KeyInput::Esc, ctrl, now, available)
            == (v, ReplyView::Quit),
{
}

} // verus!
