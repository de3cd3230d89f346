//! The page for filtering a file.

use crate::app::state::AppState;
use crate::pipeline::filter::OfflineBasicFilterMetrics;
use crate::ui::lines::{Line, Tone, say, say_error, say_str};
use crate::ui::lines;
use crate::util::text;
use vstd::prelude::*;

verus! {

pub open spec fn config_status(state: AppState) -> Seq<(Tone, Seq<char>)> {
    lines::said(Tone::Plain, "配置文件路径: "@ + state.config_path@) + lines::said(
        Tone::Plain,
        "当前页面: "@ + state.settings.selected_page.spec_label(),
    ) + lines::said(Tone::Plain, "当前模式: "@ + state.settings.inference_mode.spec_label())
        + lines::said_error("最近一次配置写入失败: "@, state.last_persist_error)
        + lines::said_if(
        state.last_persist_error is None,
        Tone::Plain,
        "最近一次配置写入: 正常"@,
    )
}

/// What is said of the settings.
pub fn config_lines(state: &AppState) -> (r: Vec<Line>)
    ensures
        lines::line_views(r@) == config_status(*state),
{
    let mut list: Vec<Line> = Vec::new();
    say(&mut list, Tone::Plain, text::joined("配置文件路径: ", state.config_path.as_str()));
    say(
        &mut list,
        Tone::Plain,
        text::joined("当前页面: ", state.settings.selected_page.label()),
    );
    say(
        &mut list,
        Tone::Plain,
        text::joined("当前模式: ", state.settings.inference_mode.label()),
    );
    say_error(&mut list, "最近一次配置写入失败: ", &state.last_persist_error);
    if state.last_persist_error.is_none() {
        say_str(&mut list, Tone::Plain, "最近一次配置写入: 正常");
    }
    assert(lines::line_views(list@) =~= config_status(*state));
    list
}

/// Whether the stored profile can be filtered by.
pub open spec fn profile_ready(state: AppState) -> bool {
    state.default_profile_summary matches Some(summary) && summary.embedding_count > 0
}

/// Whether a file can be filtered, and what is said of it.
pub fn profile_readiness(state: &AppState) -> (r: (bool, Line))
    ensures
        r.0 == profile_ready(*state),
        r.1@ == if profile_ready(*state) {
            (Tone::Good, "默认 profile 已就绪，可以直接运行离线 Basic Filter。"@)
        } else {
            (
                Tone::Caution,
                "当前默认 profile 还不可用于离线 Basic Filter，请先完成训练并生成 embedding-ready profile。"@,
            )
        },
{
    let ready = match &state.default_profile_summary {
        Some(summary) => !summary.is_metadata_only(),
        None => false,
    };
    if ready {
        (
            true,
            Line {
                tone: Tone::Good,
                words: "默认 profile 已就绪，可以直接运行离线 Basic Filter。".to_owned(),
            },
        )
    } else {
        (
            false,
            Line {
                tone: Tone::Caution,
                words: "当前默认 profile 还不可用于离线 Basic Filter，请先完成训练并生成 embedding-ready profile。".to_owned(),
            },
        )
    }
}

/// The numbers of a filtered file as they are shown: durations with two decimals,
/// the others with three.
#[derive(Debug)]
pub struct OfflineTexts {
    pub input_duration: String,
    pub output_duration: String,
    pub mean_similarity: String,
    pub min_similarity: String,
    pub max_similarity: String,
    pub threshold: String,
    pub average_gain: String,
}

pub open spec fn offline_result(
    metrics: OfflineBasicFilterMetrics,
    numbers: OfflineTexts,
    output_path: Seq<char>,
) -> Seq<(Tone, Seq<char>)> {
    lines::said(Tone::Plain, "最近一次离线处理结果"@) + lines::said(
        Tone::Plain,
        "输入采样率: "@ + text::decimal(metrics.input_sample_rate_hz as nat)
            + " Hz | 输出采样率: "@ + text::decimal(metrics.output_sample_rate_hz as nat)
            + " Hz"@,
    ) + lines::said(
        Tone::Plain,
        "输入时长: "@ + numbers.input_duration@ + " s | 输出时长: "@ + numbers.output_duration@
            + " s"@,
    ) + lines::said(
        Tone::Plain,
        "分析帧: "@ + text::decimal(metrics.analyzed_frame_count as nat) + " | 活动帧: "@
            + text::decimal(metrics.active_frame_count as nat) + " | 保留活动帧: "@
            + text::decimal(metrics.kept_active_frame_count as nat) + " | 抑制活动帧: "@
            + text::decimal(metrics.suppressed_active_frame_count as nat),
    ) + lines::said(
        Tone::Plain,
        "相似度: 平均 "@ + numbers.mean_similarity@ + " | 最低 "@ + numbers.min_similarity@
            + " | 最高 "@ + numbers.max_similarity@ + " | 运行阈值 "@ + numbers.threshold@,
    ) + lines::said(Tone::Plain, "平均帧增益: "@ + numbers.average_gain@) + lines::said(
        Tone::Plain,
        "输出文件: "@ + output_path,
    )
}

/// What is said of the file that was filtered last.
pub fn offline_result_lines(
    metrics: &OfflineBasicFilterMetrics,
    numbers: &OfflineTexts,
    output_path: &str,
) -> (r: Vec<Line>)
    ensures
        lines::line_views(r@) == offline_result(*metrics, *numbers, output_path@),
{
    let mut list: Vec<Line> = Vec::new();
    say_str(&mut list, Tone::Plain, "最近一次离线处理结果");
    let input_rate = text::decimal_text(metrics.input_sample_rate_hz as u64);
    let output_rate = text::decimal_text(metrics.output_sample_rate_hz as u64);
    let mut rates = text::joined3("输入采样率: ", input_rate.as_str(), " Hz | 输出采样率: ");
    rates.append(output_rate.as_str());
    rates.append(" Hz");
    say(&mut list, Tone::Plain, rates);
    let mut durations = text::joined3(
        "输入时长: ",
        numbers.input_duration.as_str(),
        " s | 输出时长: ",
    );
    durations.append(numbers.output_duration.as_str());
    durations.append(" s");
    say(&mut list, Tone::Plain, durations);
    let analyzed = text::decimal_text(metrics.analyzed_frame_count as u64);
    let active = text::decimal_text(metrics.active_frame_count as u64);
    let kept = text::decimal_text(metrics.kept_active_frame_count as u64);
    let suppressed = text::decimal_text(metrics.suppressed_active_frame_count as u64);
    let mut counts = text::joined3("分析帧: ", analyzed.as_str(), " | 活动帧: ");
    counts.append(active.as_str());
    counts.append(" | 保留活动帧: ");
    counts.append(kept.as_str());
    counts.append(" | 抑制活动帧: ");
    counts.append(suppressed.as_str());
    say(&mut list, Tone::Plain, counts);
    let mut scores = text::joined3(
        "相似度: 平均 ",
        numbers.mean_similarity.as_str(),
        " | 最低 ",
    );
    scores.append(numbers.min_similarity.as_str());
    scores.append(" | 最高 ");
    scores.append(numbers.max_similarity.as_str());
    scores.append(" | 运行阈值 ");
    scores.append(numbers.threshold.as_str());
    say(&mut list, Tone::Plain, scores);
    say(
        &mut list,
        Tone::Plain,
        text::joined("平均帧增益: ", numbers.average_gain.as_str()),
    );
    say(&mut list, Tone::Plain, text::joined("输出文件: ", output_path));
    assert(lines::line_views(list@) =~= offline_result(*metrics, *numbers, output_path@));
    list
}

/// Why the last file was not filtered, where it was not.
pub fn offline_error_line(state: &AppState) -> (r: Option<Line>)
    ensures
        match state.last_offline_basic_filter_error {
            Some(error) => r matches Some(line) && line@ == (
                Tone::Bad,
                "离线 Basic Filter 运行失败: "@ + error@,
            ),
            None => r is None,
        },
{
    match &state.last_offline_basic_filter_error {
        Some(error) => Some(
            Line {
                tone: Tone::Bad,
                words: text::joined("离线 Basic Filter 运行失败: ", error.as_str()),
            },
        ),
        None => None,
    }
}

/// A file can be filtered exactly where a profile with a learned voice is stored.
pub proof fn filtering_needs_a_learned_voice(state: AppState)
    ensures
        profile_ready(state) <==> state.default_profile_summary is Some
            && state.default_profile_summary->0.embedding_count != 0,
{
}

/// Saving is told to have failed or to be in order, never both.
pub proof fn saving_failed_or_not(state: AppState)
    ensures
        config_status(state).len() == 4,
        config_status(state)[3].0 == Tone::Bad <==> state.last_persist_error is Some,
        config_status(state)[0].1 == "配置文件路径: "@ + state.config_path@,
{
}

} // verus!
