//! What stands around the pages: the status bar and the question at the start.

use crate::app::commands::AppCommand;
use crate::app::state::{
    AppState, STARTUP_RECORDING_OVERWRITE_CONFIRMATION_CLICKS, StartupRecordingPrompt,
    StartupRecordingPromptSeverity,
};
use crate::app::state;
use crate::config::settings::UiPage;
use crate::ui::lines::{Line, Tone, fraction_text, say, say_error, say_str};
use crate::ui::lines;
use crate::util::text;
use vstd::prelude::*;

verus! {

/// Turns to another page.
pub fn page_selected(state: &mut AppState, page: UiPage)
    ensures
        *final(state) == (AppState {
            settings: crate::config::settings::AppSettings {
                selected_page: page,
                ..old(state).settings
            },
            ..*old(state)
        }),
{
    state.settings.selected_page = page;
}

pub open spec fn status(state: AppState) -> Seq<(Tone, Seq<char>)> {
    lines::said(Tone::Plain, "当前页面: "@ + state.settings.selected_page.spec_label())
        + lines::said(Tone::Plain, "推理模式: "@ + state.settings.inference_mode.spec_label())
        + lines::said(Tone::Plain, "音频状态: "@ + state.runtime_stage.spec_label())
        + lines::said(Tone::Plain, "配置文件: "@ + state.config_path@)
}

/// The entries of the status bar.
pub fn status_lines(state: &AppState) -> (r: Vec<Line>)
    ensures
        lines::line_views(r@) == status(*state),
{
    let mut list: Vec<Line> = Vec::new();
    say(
        &mut list,
        Tone::Plain,
        text::joined("当前页面: ", state.settings.selected_page.label()),
    );
    say(
        &mut list,
        Tone::Plain,
        text::joined("推理模式: ", state.settings.inference_mode.label()),
    );
    say(&mut list, Tone::Plain, text::joined("音频状态: ", state.runtime_stage.label()));
    say(&mut list, Tone::Plain, text::joined("配置文件: ", state.config_path.as_str()));
    assert(lines::line_views(list@) =~= status(*state));
    list
}

pub open spec fn troubles(state: AppState) -> Seq<(Tone, Seq<char>)> {
    lines::said_error("配置保存失败: "@, state.last_persist_error) + lines::said_if(
        state.last_persist_error is None,
        Tone::Plain,
        "配置保存状态: 正常"@,
    ) + lines::said_error("实时链路错误: "@, state.last_runtime_error)
}

/// What is said below the status bar.
pub fn trouble_lines(state: &AppState) -> (r: Vec<Line>)
    ensures
        lines::line_views(r@) == troubles(*state),
{
    let mut list: Vec<Line> = Vec::new();
    say_error(&mut list, "配置保存失败: ", &state.last_persist_error);
    if state.last_persist_error.is_none() {
        say_str(&mut list, Tone::Plain, "配置保存状态: 正常");
    }
    say_error(&mut list, "实时链路错误: ", &state.last_runtime_error);
    assert(lines::line_views(list@) =~= troubles(*state));
    list
}

// ---------------------------------------------------------------------------
// The question about earlier recordings
// ---------------------------------------------------------------------------
/// Texts, a plain line each.
pub open spec fn plain_lines(words: Seq<Seq<char>>) -> Seq<(Tone, Seq<char>)> {
    words.map_values(|w: Seq<char>| (Tone::Plain, w))
}

pub open spec fn question(prompt: StartupRecordingPrompt) -> Seq<(Tone, Seq<char>)> {
    lines::said(
        match prompt.severity {
            StartupRecordingPromptSeverity::Info => Tone::Good,
            StartupRecordingPromptSeverity::Warning => Tone::Caution,
        },
        prompt.summary@,
    ) + plain_lines(text::texts(prompt.details@)) + lines::said(
        Tone::Plain,
        "加载文件后会直接跳到第 25 步：完成确认，并立即触发一次质量检查。"@,
    )
}

/// What is asked about earlier recordings.
pub fn question_lines(prompt: &StartupRecordingPrompt) -> (r: Vec<Line>)
    ensures
        lines::line_views(r@) == question(*prompt),
{
    let mut list: Vec<Line> = Vec::new();
    let tone = match prompt.severity {
        StartupRecordingPromptSeverity::Info => Tone::Good,
        StartupRecordingPromptSeverity::Warning => Tone::Caution,
    };
    say(&mut list, tone, prompt.summary.clone());
    let ghost before = lines::line_views(list@);
    let ghost all = plain_lines(text::texts(prompt.details@));
    let mut i: usize = 0;
    assert(before =~= before + all.take(0));
    while i < prompt.details.len()
        invariant
            i <= prompt.details.len(),
            all == plain_lines(text::texts(prompt.details@)),
            lines::line_views(list@) == before + all.take(i as int),
        decreases prompt.details.len() - i,
    {
        say(&mut list, Tone::Plain, prompt.details[i].clone());
        i = i + 1;
        assert(lines::line_views(list@) =~= before + all.take(i as int));
    }
    assert(all.take(i as int) =~= all);
    say_str(
        &mut list,
        Tone::Plain,
        "加载文件后会直接跳到第 25 步：完成确认，并立即触发一次质量检查。",
    );
    assert(lines::line_views(list@) =~= question(*prompt));
    list
}

pub open spec fn question_hints(state: AppState, loadable: bool) -> Seq<(Tone, Seq<char>)> {
    lines::said_if(
        !loadable,
        Tone::Small,
        "当前没有可加载的有效训练录音文件，只能选择全部覆盖重录。"@,
    ) + match state.spec_overwrite_progress() {
        Some((clicks, required)) => lines::said(
            Tone::Small,
            "“全部覆盖重录”需要连续点击 "@ + text::decimal(required as nat)
                + " 次才会触发："@ + lines::fraction(clicks as nat, required as nat),
        ),
        None => lines::said(
            Tone::Small,
            "“全部覆盖重录”需要连续点击 "@ + text::decimal(
                STARTUP_RECORDING_OVERWRITE_CONFIRMATION_CLICKS as nat,
            ) + " 次才会真正触发。"@,
        ),
    }
}

/// What is said below the buttons of the question.
pub fn question_hint_lines(state: &AppState, loadable: bool) -> (r: Vec<Line>)
    ensures
        lines::line_views(r@) == question_hints(*state, loadable),
{
    let mut list: Vec<Line> = Vec::new();
    if !loadable {
        say_str(
            &mut list,
            Tone::Small,
            "当前没有可加载的有效训练录音文件，只能选择全部覆盖重录。",
        );
    }
    match state.startup_recording_overwrite_progress() {
        Some((clicks, required)) => {
            let needed = text::decimal_text(required as u64);
            let numbers = fraction_text(clicks as u64, required as u64);
            let mut words = text::joined3(
                "“全部覆盖重录”需要连续点击 ",
                needed.as_str(),
                " 次才会触发：",
            );
            words.append(numbers.as_str());
            say(&mut list, Tone::Small, words);
        },
        None => {
            let needed = text::decimal_text(
                STARTUP_RECORDING_OVERWRITE_CONFIRMATION_CLICKS as u64,
            );
            say(
                &mut list,
                Tone::Small,
                text::joined3(
                    "“全部覆盖重录”需要连续点击 ",
                    needed.as_str(),
                    " 次才会真正触发。",
                ),
            );
        },
    }
    assert(lines::line_views(list@) =~= question_hints(*state, loadable));
    list
}

/// Loading the earlier recordings was clicked.
pub fn load_pressed(state: &mut AppState)
    ensures
        *final(state) == (AppState {
            startup_recording_overwrite_confirmation_clicks: 0,
            pending_command: Some(AppCommand::LoadDetectedTrainingRecordings),
            ..*old(state)
        }),
{
    state.cancel_startup_recording_overwrite_confirmation();
    state.queue_command(AppCommand::LoadDetectedTrainingRecordings);
}

/// Overwriting the earlier recordings was clicked; it is asked for after enough
/// clicks.
pub fn overwrite_pressed(state: &mut AppState)
    ensures
        ({
            let (clicks, confirmed) = state::next_clicks(
                old(state).startup_recording_overwrite_confirmation_clicks,
                STARTUP_RECORDING_OVERWRITE_CONFIRMATION_CLICKS,
            );
            let asked = old(state).startup_recording_prompt is Some;
            *final(state) == (AppState {
                startup_recording_overwrite_confirmation_clicks: if asked {
                    clicks
                } else {
                    0
                },
                pending_command: if asked && confirmed {
                    Some(AppCommand::OverwriteDetectedTrainingRecordings)
                } else {
                    old(state).pending_command
                },
                ..*old(state)
            })
        }),
{
    if state.confirm_startup_recording_overwrite() {
        state.queue_command(AppCommand::OverwriteDetectedTrainingRecordings);
    }
}

/// Every detail of the question is shown, in order, between its summary and what loading does;
/// a warning is shown with caution.
pub proof fn question_shows_every_detail(prompt: StartupRecordingPrompt, i: int)
    requires
        0 <= i < prompt.details@.len(),
    ensures
        question(prompt).len() == prompt.details@.len() + 2,
        question(prompt)[0].1 == prompt.summary@,
        question(prompt)[0].0 == Tone::Caution <==> prompt.severity
            == StartupRecordingPromptSeverity::Warning,
        question(prompt)[i + 1].1 == prompt.details@[i]@,
{
}

/// Troubles are told exactly while there are any.
pub proof fn troubles_are_told(state: AppState)
    ensures
        troubles(state)[0].0 == Tone::Bad <==> state.last_persist_error is Some,
        troubles(state).len() == if state.last_runtime_error is Some {
            2nat
        } else {
            1nat
        },
        state.last_runtime_error matches Some(error) ==> troubles(state)[1].1 == "实时链路错误: "@
            + error@,
        state.last_persist_error matches Some(error) ==> troubles(state)[0].1 == "配置保存失败: "@
            + error@,
{
}

/// Where nothing can be loaded that is said first.
pub proof fn nothing_to_load_is_said(state: AppState, loadable: bool)
    ensures
        question_hints(state, loadable).len() == if loadable {
            1nat
        } else {
            2nat
        },
{
}

} // verus!
