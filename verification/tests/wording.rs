use fs_agent::error::Error;
use fs_agent::events::{
    ContextSource, Decision, DecisionSource, FinishReason, HistoryReason, Mode, RoundMode,
    SpeakerId, StopReason, Usage,
};
use fs_agent::wording::{
    banner, built_in_names, cache_pair, choices_text, clear_choices, context_injected,
    context_pair, debater_label, decision_name, discussion_ended, discussion_pair,
    discussion_replay, discussion_starting, divergence, error_report, executor_finished,
    exit_choices, finish_reason, help_main_for, history, hook, hook_feedback, identity_for,
    mode_field, new_content, paste_body, paste_choices, permission_asked, permission_call,
    permission_choices, permission_decided, permission_prompt_with_context, permission_summary,
    permission_title, plan_choices, plan_conflict_prompt, questionnaire_option,
    questionnaire_progress, questionnaire_status, recommended_label, replay_user, round_ended,
    round_group, round_section, session_ended, session_error, speaker_label, stats_hooks,
    stats_no_cost, stats_round, stats_round_ended, stats_session, status_line, stop_reason,
    stop_reason_name, thousands, token_pair, too_small, tool_call, tool_output_preview,
    turn_ended, turn_started, unknown_command, unknown_debater, usage_summary,
    viewer_status_line,
};

#[test]
fn stopping_points_read_as_chinese_phrases() {
    assert_eq!(stop_reason(StopReason::Completed), "完成");
    assert_eq!(stop_reason(StopReason::BudgetExhausted), "预算用尽");
    assert_eq!(turn_started(3), "回合开始（第 3 次迭代）");
    assert_eq!(turn_ended(StopReason::Aborted), "回合结束：已取消");
    assert_eq!(round_ended(2, StopReason::RoundsExhausted), "第 2 轮结束：轮次用尽");
    assert_eq!(session_ended(StopReason::Error), "会话结束：出错");
    assert_eq!(stop_reason_name("Consensus"), "达成共识");
    assert_eq!(stop_reason_name("Weird"), "Weird");
    assert_eq!(decision_name("deny"), "拒绝");
    assert_eq!(decision_name("Allow"), "Allow");
    assert_eq!(finish_reason(&FinishReason::Stop), "正常停止");
    assert_eq!(finish_reason(&FinishReason::Other("vendor_x".to_string())), "vendor_x");
}

#[test]
fn rounds_are_named_by_number_and_mode() {
    assert_eq!(round_section(1, RoundMode::Independent), "── 第 1 轮（独立首轮）──");
    assert_eq!(round_group(2, Some(RoundMode::Targeted)), "── 第 2 轮（定向第二轮）──");
    assert_eq!(round_group(3, None), "── 第 3 轮 ──");
    assert_eq!(
        stats_round(2, RoundMode::Targeted, 4, &stats_round_ended(StopReason::Consensus)),
        "#2 定向第二轮 4 次调用，结束于 达成共识"
    );
}

#[test]
fn a_discussion_names_its_absent_side() {
    assert_eq!(
        discussion_ended(StopReason::Consensus, 2, &[]),
        "讨论结束：达成共识（跑了 2 轮）"
    );
    let absent = vec![SpeakerId::Debater("甲".to_string()), SpeakerId::User];
    assert_eq!(
        discussion_ended(StopReason::Consensus, 2, &absent),
        "讨论结束：达成共识（跑了 2 轮）；缺席：[甲]、[用户]"
    );
    assert_eq!(discussion_replay("abc"), "会话 abc；复盘：fs-agent sessions show abc");
    assert_eq!(discussion_pair("a", "b"), "a × b");
    assert_eq!(
        discussion_starting("A", "B", "\n   问题一  \n第二行"),
        "开始讨论：A × B；题目：问题一"
    );
}

#[test]
fn a_debater_named_after_its_model_is_named_once() {
    assert_eq!(debater_label("a", "a"), "a");
    assert_eq!(debater_label("保守", "deepseek-v4-pro"), "保守（deepseek-v4-pro）");
    assert_eq!(
        unknown_debater("x", &["a", "b"]),
        "池子里没有叫 `x` 的讨论者；可用：`a`、`b`"
    );
}

#[test]
fn speakers_get_their_bracketed_labels() {
    assert_eq!(speaker_label(&SpeakerId::Debater("kimi".to_string())), "[kimi]");
    assert_eq!(speaker_label(&SpeakerId::Executor("e1".to_string())), "[执行者 e1]");
    assert_eq!(speaker_label(&SpeakerId::User), "[用户]");
    assert_eq!(speaker_label(&SpeakerId::System), "[系统]");
    assert_eq!(replay_user(Some("甲")), "[用户 甲]");
    assert_eq!(replay_user(None), "[用户]");
}

#[test]
fn counts_get_thousands_separators() {
    assert_eq!(thousands(0), "0");
    assert_eq!(thousands(999), "999");
    assert_eq!(thousands(1000), "1,000");
    assert_eq!(thousands(1234567), "1,234,567");
    assert_eq!(thousands(u64::MAX), "18,446,744,073,709,551,615");
    assert_eq!(token_pair(12345, Some(100000)), "12,345 / 100,000");
    assert_eq!(token_pair(12345, None), "12,345");
    assert_eq!(cache_pair(3, 4000), "3 / 4,000");
}

#[test]
fn the_context_field_shows_its_share_only_when_asked() {
    assert_eq!(context_pair(None, 200000, true), "—");
    assert_eq!(context_pair(Some(12345), 200000, true), "12,345 / 200,000（6%）");
    assert_eq!(context_pair(Some(12345), 200000, false), "12,345 / 200,000");
    assert_eq!(context_pair(Some(5), 0, true), "5 / 0（500%）");
}

#[test]
fn a_long_tool_result_is_cut_and_says_so() {
    assert_eq!(tool_output_preview("abc", 3), "abc");
    assert_eq!(tool_output_preview("abcdef", 3), "abc…（结果已省略）");
    assert_eq!(tool_output_preview("你好世界", 2), "你好…（结果已省略）");
    assert_eq!(tool_call("bash", "ls"), "调用 bash(ls)");
}

#[test]
fn permission_lines_name_the_tool_and_the_call() {
    assert_eq!(permission_asked(Some("bash"), ""), "权限询问：bash");
    assert_eq!(permission_asked(Some("bash"), "command=ls"), "权限询问：bash（command=ls）");
    assert_eq!(permission_asked(None, ""), "权限询问");
    assert_eq!(permission_asked(None, "x"), "权限询问（x）");
    assert_eq!(permission_title("bash"), "权限询问：bash");
    assert_eq!(permission_call("bash", ""), "bash");
    assert_eq!(permission_call("bash", "command=rm"), "bash（command=rm）");
    assert_eq!(
        permission_decided(Decision::Allow, DecisionSource::User, None),
        "权限裁决：允许（用户）"
    );
    assert_eq!(
        permission_decided(Decision::Deny, DecisionSource::Policy, Some("no")),
        "权限裁决：拒绝（策略）：no"
    );
    assert_eq!(
        permission_prompt_with_context("bash", "c", "r"),
        "权限询问：bash（c）？原因：r [y] 允许 / [a] 总是允许 / [n] 拒绝 "
    );
}

#[test]
fn every_question_offers_its_keys_as_one_line() {
    assert_eq!(choices_text(&permission_choices()), "[y] 允许 / [a] 总是允许 / [n] 拒绝");
    assert_eq!(choices_text(&plan_choices()), "[o] 覆盖 / [a] 追加 / [k] 保留");
    assert_eq!(choices_text(&paste_choices()), "[y] 粘贴 / [n] 取消");
    assert_eq!(choices_text(&clear_choices()), "[y] 清空 / [n] 保留");
    assert_eq!(choices_text(&exit_choices()), "[y] 退出 / [n] 取消");
    assert_eq!(choices_text(&[]), "");
    assert_eq!(plan_conflict_prompt("p.md"), "p.md 已存在：[o] 覆盖 / [a] 追加 / [k] 保留 ");
    assert_eq!(paste_body(12), "粘贴 12 字符");
}

#[test]
fn the_permission_summary_says_what_the_tool_does() {
    assert_eq!(
        permission_summary("bash"),
        "在你的工作区里执行一条 shell 命令（可以读写文件、访问网络）"
    );
    assert_eq!(permission_summary("read_file"), "读取一个文件的内容");
    assert_eq!(permission_summary("repo_map"), "扫一遍仓库，生成一份符号地图（只读）");
    assert_eq!(
        permission_summary("custom__git__status"),
        "运行你在配置里声明的自定义工具 git/status"
    );
    assert_eq!(permission_summary("frobnicate"), "调用 frobnicate 工具");
}

#[test]
fn a_recommended_option_is_shown_with_a_badge() {
    assert_eq!(recommended_label("Yes (Recommended)"), ("Yes", true));
    assert_eq!(recommended_label("Yes(Recommended)  "), ("Yes", true));
    assert_eq!(recommended_label("Yes (recommended)"), ("Yes (recommended)", false));
    assert_eq!(recommended_label("(Recommended) first"), ("(Recommended) first", false));
    assert_eq!(
        questionnaire_option(1, "Yes (Recommended)", Some(" the default ")),
        "1. Yes（推荐） — the default"
    );
    assert_eq!(questionnaire_option(2, "No", None), "2. No");
    assert_eq!(questionnaire_option(3, "No", Some("   ")), "3. No");
}

#[test]
fn the_questionnaire_footer_pages_and_names_the_keys() {
    assert_eq!(questionnaire_progress(1, 3), "2 / 3");
    assert_eq!(
        questionnaire_status(0, 2, true),
        "1 / 2 · ↑↓ 选择 · enter 提交 · space 确认 · tab 跳过 · ←→ 换题"
    );
    assert_eq!(
        questionnaire_status(0, 2, false),
        "1 / 2 · ↑↓ 选择 · enter 继续 · space 确认 · tab 跳过 · ←→ 换题"
    );
}

#[test]
fn the_status_line_keeps_the_way_out_at_every_width() {
    assert_eq!(
        status_line(false, 120),
        "就绪 · enter 发送 · ctrl-j 换行 · esc 取消 · shift+tab 计划 · PgUp/PgDn 滚动 · ctrl-c/ctrl-d 退出"
    );
    assert_eq!(
        status_line(false, 80),
        "就绪 · enter 发送 · ctrl-j 换行 · esc 取消 · shift+tab 计划 · ctrl-c/ctrl-d 退出"
    );
    assert_eq!(
        status_line(false, 78),
        "enter 发送 · ctrl-j 换行 · esc 取消 · shift+tab 计划 · ctrl-c/ctrl-d 退出"
    );
    assert_eq!(status_line(false, 40), "就绪 · enter 发送 · ctrl-c/ctrl-d 退出");
    assert_eq!(status_line(true, 10), "ctrl-c 退出");
    assert_eq!(
        viewer_status_line(true, 120),
        "工作中 · esc 取消 · PgUp/PgDn 滚动 · ctrl-c 退出"
    );
}

#[test]
fn unknown_commands_list_the_built_ins_and_the_skills() {
    assert_eq!(built_in_names(), "可用：/undo、/plan、/endplan、/discuss、/quit");
    assert_eq!(
        unknown_command("/x", &[]),
        "未知命令 /x（可用：/undo、/plan、/endplan、/discuss、/quit，或直接输入 /<技能名>）"
    );
    assert_eq!(
        unknown_command("/x", &["a", "b"]),
        "未知命令 /x（可用：/undo、/plan、/endplan、/discuss、/quit；技能：/a、/b）"
    );
    let nine = ["s1", "s2", "s3", "s4", "s5", "s6", "s7", "s8", "s9"];
    assert_eq!(
        unknown_command("/x", &nine),
        "未知命令 /x（可用：/undo、/plan、/endplan、/discuss、/quit；技能：/s1、/s2、/s3、/s4、/s5、/s6、/s7、/s8、…）"
    );
}

#[test]
fn narration_lines_keep_their_verbatim_parts() {
    assert_eq!(hook("pre", "ok"), "钩子 工具调用前：ok");
    assert_eq!(hook("post", "ok"), "钩子 工具调用后：ok");
    assert_eq!(hook("other", "ok"), "钩子 other：ok");
    assert_eq!(hook_feedback("x"), "[钩子] x");
    assert_eq!(
        executor_finished("e1", StopReason::Completed, "done"),
        "执行者 e1 收尾：完成 — done"
    );
    assert_eq!(divergence("t"), "分歧：t");
    assert_eq!(
        usage_summary(&Usage { input_tokens: 1, output_tokens: 2, cached_tokens: 3, miss_tokens: 4 }),
        "用量 in=1 out=2 cached=3 miss=4"
    );
    assert_eq!(
        context_injected(ContextSource::Persona("甲".to_string())),
        "[上下文注入：人物：甲]"
    );
    assert_eq!(context_injected(ContextSource::AgentsMd), "[上下文注入：AGENTS.md]");
    assert_eq!(history(HistoryReason::Undo, None), "[历史：撤销] 历史已被取代");
    assert_eq!(history(HistoryReason::Compaction, Some("s")), "[历史：压缩] s");
    assert_eq!(new_content(5), "↓ 5 行新内容 · 点此到底");
    assert_eq!(too_small(80, 24), "终端太小：至少 80×24");
    assert_eq!(mode_field(Mode::Plan), "模式 计划");
}

#[test]
fn errors_explain_their_code_and_pass_the_detail() {
    assert_eq!(session_error("synthesis_failed", "d"), "[会话错误：合成失败] d");
    assert_eq!(session_error("zzz", "d"), "[会话错误：zzz] d");
    assert_eq!(error_report(&Error::Undo("d".to_string())), "撤销失败：d");
    assert_eq!(error_report(&Error::Io("e".to_string())), "事件流读写失败：e");
}

#[test]
fn the_banner_and_the_identity() {
    assert_eq!(
        banner("s1", "m", Mode::Ask, "/w", true),
        "fs-agent：会话 s1 · 模型 m · 模式 询问 · /w（已继续）"
    );
    assert_eq!(
        banner("s1", "m", Mode::Auto, "/w", false),
        "fs-agent：会话 s1 · 模型 m · 模式 自动 · /w"
    );
    assert_eq!(identity_for("fs-agent", "0.1.0"), "fs-agent 0.1.0");
    assert!(help_main_for("1.2.3").starts_with("fs-agent 1.2.3\n\n  usage: fs-agent [--plain|--tui]"));
}

#[test]
fn stats_lines() {
    assert_eq!(stats_session(10, 2, 3, 1, ""), "会话：10 token，2 次调用，3 条消息，1 轮");
    assert_eq!(stats_no_cost("m"), "，无价格（没有 [pricing.m] 条目）");
    assert_eq!(stats_hooks(5, 2, 3, 1, 0), "钩子：执行 5（前 2，后 3），反馈 1，失败 0");
}
