//! The page of the devices.

use crate::app::commands::AppCommand;
use crate::app::state::AppState;
use crate::audio::devices::VirtualCableRoute;
use crate::pipeline::realtime::RuntimeStage;
use crate::ui::lines::{Line, Tone, say, say_error, say_str};
use crate::ui::lines;
use crate::util::text;
use vstd::prelude::*;

verus! {

/// What is shown where no device is chosen.
pub const UNSELECTED_DEVICE_LABEL: &'static str = "未选择";

/// What is shown as chosen.
pub fn selected_device_text(selected: &Option<String>) -> (r: String)
    ensures
        r@ == match *selected {
            Some(name) => name@,
            None => UNSELECTED_DEVICE_LABEL@,
        },
{
    match selected {
        Some(name) => name.clone(),
        None => UNSELECTED_DEVICE_LABEL.to_owned(),
    }
}

/// What is chosen by what is shown.
pub fn selected_device(shown: String) -> (r: Option<String>)
    ensures
        r == if shown@ == UNSELECTED_DEVICE_LABEL@ {
            None
        } else {
            Some(shown)
        },
{
    if shown == UNSELECTED_DEVICE_LABEL.to_owned() {
        None
    } else {
        Some(shown)
    }
}

/// Whether the output is the playback end of the cable.
pub open spec fn output_is_cable(state: AppState, route: VirtualCableRoute) -> bool {
    state.settings.selected_output_device matches Some(name) && name@
        == route.playback_device_name@
}

pub open spec fn head(state: AppState) -> Seq<(Tone, Seq<char>)> {
    lines::said_error("设备枚举失败: "@, state.last_device_error)
        + match state.device_inventory.virtual_cable_route {
        Some(route) => lines::said(
            Tone::Plain,
            "已检测到 "@ + route.driver_name@ + "。程序输出应使用播放端："@
                + route.playback_device_name@,
        ) + lines::said(
            Tone::Plain,
            "OBS / Discord 应选择录音端："@ + route.recording_device_name@,
        ) + if output_is_cable(state, route) {
            lines::said(Tone::Linked, "当前程序输出已对准 VB-CABLE 播放端。"@)
        } else {
            lines::said(
                Tone::Caution,
                "当前输出设备不是 VB-CABLE，OBS / Discord 不会收到程序处理后的声音。"@,
            )
        },
        None => lines::said(
            Tone::Caution,
            "未检测到 VB-CABLE 录音/播放端配对，程序暂时不会自动接管虚拟音频线。"@,
        ),
    }
}

/// What is said of the devices and the cable, and whether switching the output to
/// the cable is offered.
pub fn head_lines(state: &AppState) -> (r: (Vec<Line>, bool))
    ensures
        lines::line_views(r.0@) == head(*state),
        r.1 == (state.device_inventory.virtual_cable_route matches Some(route)
            && !output_is_cable(*state, route)),
{
    let mut list: Vec<Line> = Vec::new();
    let mut offer = false;
    say_error(&mut list, "设备枚举失败: ", &state.last_device_error);
    match &state.device_inventory.virtual_cable_route {
        Some(route) => {
            let mut found = text::joined3(
                "已检测到 ",
                route.driver_name,
                "。程序输出应使用播放端：",
            );
            found.append(route.playback_device_name.as_str());
            say(&mut list, Tone::Plain, found);
            say(
                &mut list,
                Tone::Plain,
                text::joined(
                    "OBS / Discord 应选择录音端：",
                    route.recording_device_name.as_str(),
                ),
            );
            let linked = match &state.settings.selected_output_device {
                Some(name) => *name == route.playback_device_name,
                None => false,
            };
            if linked {
                say_str(&mut list, Tone::Linked, "当前程序输出已对准 VB-CABLE 播放端。");
            } else {
                say_str(
                    &mut list,
                    Tone::Caution,
                    "当前输出设备不是 VB-CABLE，OBS / Discord 不会收到程序处理后的声音。",
                );
                offer = true;
            }
        },
        None => {
            say_str(
                &mut list,
                Tone::Caution,
                "未检测到 VB-CABLE 录音/播放端配对，程序暂时不会自动接管虚拟音频线。",
            );
        },
    }
    assert(lines::line_views(list@) =~= head(*state));
    (list, offer)
}

/// The words on the button for the link, and what it asks for.
pub fn runtime_button(stage: RuntimeStage) -> (r: (&'static str, AppCommand))
    ensures
        r.0@ == if stage == RuntimeStage::Stopped {
            "启动 Passthrough"@
        } else {
            "停止 Passthrough"@
        },
        r.1 == if stage == RuntimeStage::Stopped {
            AppCommand::StartRealtime
        } else {
            AppCommand::StopRealtime
        },
{
    match stage {
        RuntimeStage::Stopped => ("启动 Passthrough", AppCommand::StartRealtime),
        _ => ("停止 Passthrough", AppCommand::StopRealtime),
    }
}

pub open spec fn status(state: AppState, input_peak: Seq<char>, output_peak: Seq<char>) -> Seq<
    (Tone, Seq<char>),
> {
    lines::said(
        Tone::Plain,
        "已发现 "@ + text::decimal(state.device_inventory.input_devices@.len())
            + " 个输入设备 / "@ + text::decimal(state.device_inventory.output_devices@.len())
            + " 个输出设备"@,
    ) + lines::said(Tone::Plain, "当前状态: "@ + state.runtime_stage.spec_label()) + lines::said(
        Tone::Plain,
        "输入峰值: "@ + input_peak + " dBFS | 输出峰值: "@ + output_peak + " dBFS"@,
    ) + lines::said(
        Tone::Plain,
        "输入丢帧: "@ + text::decimal(state.runtime_metrics.dropped_input_frames as nat)
            + " | 输出补零帧: "@ + text::decimal(
            state.runtime_metrics.missing_output_frames as nat,
        ),
    ) + match state.runtime_format {
        Some(format) => lines::said(Tone::Plain, "输入设备: "@ + format.input_device_name@)
            + lines::said(Tone::Plain, "输出设备: "@ + format.output_device_name@) + lines::said(
            Tone::Plain,
            "采样率: "@ + text::decimal(format.sample_rate_hz as nat) + " Hz | 输入: "@
                + text::decimal(format.input_channels as nat) + " ch / "@
                + format.input_sample_format@ + " | 输出: "@ + text::decimal(
                format.output_channels as nat,
            ) + " ch / "@ + format.output_sample_format@,
        ),
        None => lines::said(Tone::Plain, "运行格式: 尚未启动实时链路。"@),
    }
}

/// What is said of the link. The peaks come as text with one decimal.
pub fn status_lines(state: &AppState, input_peak: &str, output_peak: &str) -> (r: Vec<Line>)
    ensures
        lines::line_views(r@) == status(*state, input_peak@, output_peak@),
{
    let mut list: Vec<Line> = Vec::new();
    let inputs = text::decimal_text(state.device_inventory.input_devices.len() as u64);
    let outputs = text::decimal_text(state.device_inventory.output_devices.len() as u64);
    let mut found = text::joined3("已发现 ", inputs.as_str(), " 个输入设备 / ");
    found.append(outputs.as_str());
    found.append(" 个输出设备");
    say(&mut list, Tone::Plain, found);
    say(&mut list, Tone::Plain, text::joined("当前状态: ", state.runtime_stage.label()));
    let mut peaks = text::joined3("输入峰值: ", input_peak, " dBFS | 输出峰值: ");
    peaks.append(output_peak);
    peaks.append(" dBFS");
    say(&mut list, Tone::Plain, peaks);
    let dropped = text::decimal_text(state.runtime_metrics.dropped_input_frames);
    let missing = text::decimal_text(state.runtime_metrics.missing_output_frames);
    let mut losses = text::joined3("输入丢帧: ", dropped.as_str(), " | 输出补零帧: ");
    losses.append(missing.as_str());
    say(&mut list, Tone::Plain, losses);
    match &state.runtime_format {
        Some(format) => {
            say(
                &mut list,
                Tone::Plain,
                text::joined("输入设备: ", format.input_device_name.as_str()),
            );
            say(
                &mut list,
                Tone::Plain,
                text::joined("输出设备: ", format.output_device_name.as_str()),
            );
            let rate = text::decimal_text(format.sample_rate_hz as u64);
            let input_channels = text::decimal_text(format.input_channels as u64);
            let output_channels = text::decimal_text(format.output_channels as u64);
            let mut shape = text::joined3("采样率: ", rate.as_str(), " Hz | 输入: ");
            shape.append(input_channels.as_str());
            shape.append(" ch / ");
            shape.append(format.input_sample_format.as_str());
            shape.append(" | 输出: ");
            shape.append(output_channels.as_str());
            shape.append(" ch / ");
            shape.append(format.output_sample_format.as_str());
            say(&mut list, Tone::Plain, shape);
        },
        None => {
            say_str(&mut list, Tone::Plain, "运行格式: 尚未启动实时链路。");
        },
    }
    assert(lines::line_views(list@) =~= status(*state, input_peak@, output_peak@));
    list
}

/// Without a cable, or with another output than its playback end, there is a caution; otherwise
/// there is none and the link to the cable is told.
pub proof fn caution_until_cable_is_used(state: AppState)
    ensures
        head(state).last().0 == Tone::Linked <==> state.device_inventory.virtual_cable_route is Some
            && state.settings.selected_output_device is Some
            && state.settings.selected_output_device->0@
            == state.device_inventory.virtual_cable_route->0.playback_device_name@,
        head(state).last().0 != Tone::Linked ==> head(state).last().0 == Tone::Caution,
        state.last_device_error is Some <==> head(state)[0].0 == Tone::Bad,
{
}

/// The format of the link is told exactly while there is one.
pub proof fn format_is_told_while_running(state: AppState, input: Seq<char>, output: Seq<char>)
    ensures
        status(state, input, output).len() == if state.runtime_format is Some {
            7nat
        } else {
            5nat
        },
        state.runtime_format matches Some(format) ==> status(state, input, output)[4].1
            == "输入设备: "@ + format.input_device_name@ && status(state, input, output)[5].1
            == "输出设备: "@ + format.output_device_name@,
        status(state, input, output)[2].1 == "输入峰值: "@ + input + " dBFS | 输出峰值: "@ + output
            + " dBFS"@,
{
}

} // verus!
