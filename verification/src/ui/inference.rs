//! The page of the modes.

use crate::app::state::AppState;
use crate::config::settings::InferenceMode;
use crate::pipeline::realtime::RuntimeStage;
use crate::ui::lines::{Line, Tone, say, say_str};
use crate::ui::lines;
use crate::util::text;
use vstd::prelude::*;

verus! {

pub open spec fn profile_status(state: AppState, threshold: Seq<char>) -> Seq<(Tone, Seq<char>)> {
    match state.default_profile_summary {
        Some(summary) => lines::said(Tone::Plain, summary.spec_label()) + if summary.embedding_count
            == 0 {
            lines::said(
                Tone::Caution,
                "当前默认 profile 只有训练元数据，speaker embedding 还未就绪。"@,
            )
        } else {
            lines::said(
                Tone::Good,
                "当前默认 profile 已就绪："@ + text::decimal(summary.embedding_count as nat)
                    + " 个 embedding | 阈值建议 "@ + threshold,
            )
        } + lines::said(
            Tone::Plain,
            "模型版本: "@ + summary.model_version@ + " | 质量: "@ + summary.quality_severity@
                + " | 创建时间: "@ + summary.created_at_utc@,
        ),
        None => lines::said(Tone::Bad, "当前还没有可用的默认 profile，请先完成训练。"@),
    }
}

/// What is said of the profile. `threshold_text` is its suggested threshold with
/// three decimals.
pub fn profile_status_lines(state: &AppState, threshold_text: &str) -> (r: Vec<Line>)
    ensures
        lines::line_views(r@) == profile_status(*state, threshold_text@),
{
    let mut list: Vec<Line> = Vec::new();
    match &state.default_profile_summary {
        Some(summary) => {
            say(&mut list, Tone::Plain, summary.label());
            if summary.is_metadata_only() {
                say_str(
                    &mut list,
                    Tone::Caution,
                    "当前默认 profile 只有训练元数据，speaker embedding 还未就绪。",
                );
            } else {
                let count = text::decimal_text(summary.embedding_count as u64);
                let mut ready = text::joined3(
                    "当前默认 profile 已就绪：",
                    count.as_str(),
                    " 个 embedding | 阈值建议 ",
                );
                ready.append(threshold_text);
                say(&mut list, Tone::Good, ready);
            }
            let mut facts = text::joined3(
                "模型版本: ",
                summary.model_version.as_str(),
                " | 质量: ",
            );
            facts.append(summary.quality_severity.as_str());
            facts.append(" | 创建时间: ");
            facts.append(summary.created_at_utc.as_str());
            say(&mut list, Tone::Plain, facts);
        },
        None => {
            say_str(&mut list, Tone::Bad, "当前还没有可用的默认 profile，请先完成训练。");
        },
    }
    assert(lines::line_views(list@) =~= profile_status(*state, threshold_text@));
    list
}

pub open spec fn runtime_status(
    state: AppState,
    similarity: Seq<char>,
    gain: Seq<char>,
) -> Seq<(Tone, Seq<char>)> {
    lines::said(Tone::Plain, "实时状态: "@ + state.runtime_stage.spec_label())
        + if state.runtime_stage == RuntimeStage::RunningBasicFilter {
        lines::said(
            Tone::Plain,
            "当前 speaker score: "@ + similarity + " | 当前增益: "@ + gain,
        ) + lines::said(
            Tone::Plain,
            "最近 chunk 活动帧: "@ + text::decimal(
                state.runtime_metrics.last_chunk_active_frames as nat,
            ) + " / "@ + text::decimal(
                state.runtime_metrics.last_chunk_analyzed_frames as nat,
            ),
        )
    } else if state.settings.inference_mode == InferenceMode::BasicFilter {
        lines::said(Tone::Plain, "当前已选中 Basic Filter；请到设备页启动实时链路。"@)
    } else {
        lines::said(
            Tone::Plain,
            "当前可先用 Passthrough 校验设备链路，再切到 Basic Filter。"@,
        )
    }
}

/// What is said of the link. Similarity and gain come as text with three decimals.
pub fn runtime_status_lines(state: &AppState, similarity: &str, gain: &str) -> (r: Vec<Line>)
    ensures
        lines::line_views(r@) == runtime_status(*state, similarity@, gain@),
{
    let mut list: Vec<Line> = Vec::new();
    say(&mut list, Tone::Plain, text::joined("实时状态: ", state.runtime_stage.label()));
    if state.runtime_stage == RuntimeStage::RunningBasicFilter {
        let mut scores = text::joined3("当前 speaker score: ", similarity, " | 当前增益: ");
        scores.append(gain);
        say(&mut list, Tone::Plain, scores);
        let active = text::decimal_text(state.runtime_metrics.last_chunk_active_frames);
        let analyzed = text::decimal_text(state.runtime_metrics.last_chunk_analyzed_frames);
        let mut chunk = text::joined3("最近 chunk 活动帧: ", active.as_str(), " / ");
        chunk.append(analyzed.as_str());
        say(&mut list, Tone::Plain, chunk);
    } else if state.settings.inference_mode == InferenceMode::BasicFilter {
        say_str(
            &mut list,
            Tone::Plain,
            "当前已选中 Basic Filter；请到设备页启动实时链路。",
        );
    } else {
        say_str(
            &mut list,
            Tone::Plain,
            "当前可先用 Passthrough 校验设备链路，再切到 Basic Filter。",
        );
    }
    assert(lines::line_views(list@) =~= runtime_status(*state, similarity@, gain@));
    list
}

/// A profile is told to be ready exactly where it holds a learned voice, and to be missing exactly
/// where there is none.
pub proof fn readiness_follows_voice(state: AppState, threshold: Seq<char>)
    ensures
        state.default_profile_summary is None <==> profile_status(state, threshold)[0].0
            == Tone::Bad,
        state.default_profile_summary matches Some(summary) ==> {
            let said = profile_status(state, threshold);
            said.len() == 3 && (said[1].0 == Tone::Good <==> summary.embedding_count > 0) && (
            said[1].0 == Tone::Caution <==> summary.embedding_count == 0)
        },
{
}

/// Score and gain are told exactly while the filter runs.
pub proof fn scores_are_told_while_filtering(
    state: AppState,
    similarity: Seq<char>,
    gain: Seq<char>,
)
    ensures
        runtime_status(state, similarity, gain).len() == if state.runtime_stage
            == RuntimeStage::RunningBasicFilter {
            3nat
        } else {
            2nat
        },
        state.runtime_stage == RuntimeStage::RunningBasicFilter ==> runtime_status(
            state,
            similarity,
            gain,
        )[1].1 == "当前 speaker score: "@ + similarity + " | 当前增益: "@ + gain,
{
}

} // verus!
