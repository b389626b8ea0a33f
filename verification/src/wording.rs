//! The wording layer: every human-facing phrase, in one place.
//!
//! Pure functions from a domain value to a Chinese phrase. It knows nothing
//! about style (colour and bold stay in the painters) and nothing about
//! structure (per-line prefixes, indentation and grouping are their callers').
//! Hard-coded Chinese, no runtime locale: changing the language means changing
//! this module. Model-visible text is not here.

use vstd::prelude::*;

use crate::error::Error;
use crate::events::{
    ContextSource, Decision, DecisionSource, FinishReason, HistoryReason, Mode, RoundMode,
    SpeakerId, StopReason, Usage, POINT_POST, POINT_PRE,
};
use crate::placeholder::{
    char_line_end, lemma_char_line_end, line_span, line_text, trim_at, trim_by, trim_end_at,
    trim_end_by, Trimmed,
};
use crate::text::{
    chars_of, decimal, decimal_string, join, lemma_join_step, occurs_at_exec, push_char,
    push_decimal, push_str, str_eq, string_of_range,
};
use crate::tool_names::{
    custom_parts, custom_tool_parts, is_custom_name, is_custom_tool, BASH_TOOL, EDIT_FILE,
    READ_FILE, REPO_MAP_TOOL, SKILL_TOOL, TASK_TOOL, WRITE_FILE,
};
use crate::width::{cell_width, measurable, text_columns};
use vstd::string::StrSliceExecFns;

verus! {

broadcast use vstd::seq::group_seq_axioms;

/// The Chinese phrase for a stopping point.
pub open spec fn stop_reason_text(reason: StopReason) -> Seq<char> {
    match reason {
        StopReason::Completed => "完成"@,
        StopReason::MaxIterations => "达到迭代上限"@,
        StopReason::Aborted => "已取消"@,
        StopReason::MistakeLimit => "达到错误上限"@,
        StopReason::Error => "出错"@,
        StopReason::Consensus => "达成共识"@,
        StopReason::NoDivergence => "无分歧"@,
        StopReason::RoundsExhausted => "轮次用尽"@,
        StopReason::BudgetExhausted => "预算用尽"@,
    }
}

/// The Chinese phrase for a stopping point: one explicit mapping, so a
/// debug-formatted enum never reaches the interface.
pub fn stop_reason(reason: StopReason) -> (s: &'static str)
    ensures
        s@ == stop_reason_text(reason),
{
    match reason {
        StopReason::Completed => "完成",
        StopReason::MaxIterations => "达到迭代上限",
        StopReason::Aborted => "已取消",
        StopReason::MistakeLimit => "达到错误上限",
        StopReason::Error => "出错",
        StopReason::Consensus => "达成共识",
        StopReason::NoDivergence => "无分歧",
        StopReason::RoundsExhausted => "轮次用尽",
        StopReason::BudgetExhausted => "预算用尽",
    }
}

/// The human label for a round mode.
pub open spec fn round_mode_text(mode: RoundMode) -> Seq<char> {
    match mode {
        RoundMode::Independent => "独立首轮"@,
        RoundMode::Targeted => "定向第二轮"@,
        RoundMode::Synthesis => "合成"@,
    }
}

/// The human label for a round mode; the synthesis prompt names the rounds
/// with the same words.
pub fn round_mode(mode: RoundMode) -> (s: &'static str)
    ensures
        s@ == round_mode_text(mode),
{
    match mode {
        RoundMode::Independent => "独立首轮",
        RoundMode::Targeted => "定向第二轮",
        RoundMode::Synthesis => "合成",
    }
}

pub open spec fn decision_text(decision: Decision) -> Seq<char> {
    match decision {
        Decision::Allow => "允许"@,
        Decision::Ask => "询问"@,
        Decision::Deny => "拒绝"@,
    }
}

/// The Chinese phrase for a permission verdict.
pub fn decision(verdict: Decision) -> (s: &'static str)
    ensures
        s@ == decision_text(verdict),
{
    match verdict {
        Decision::Allow => "允许",
        Decision::Ask => "询问",
        Decision::Deny => "拒绝",
    }
}

pub open spec fn decision_source_text(source: DecisionSource) -> Seq<char> {
    match source {
        DecisionSource::User => "用户"@,
        DecisionSource::Hook => "钩子"@,
        DecisionSource::Policy => "策略"@,
    }
}

/// The Chinese label for where a verdict came from.
pub fn decision_source(source: DecisionSource) -> (s: &'static str)
    ensures
        s@ == decision_source_text(source),
{
    match source {
        DecisionSource::User => "用户",
        DecisionSource::Hook => "钩子",
        DecisionSource::Policy => "策略",
    }
}

pub open spec fn mode_label_text(mode: Mode) -> Seq<char> {
    match mode {
        Mode::Readonly => "只读"@,
        Mode::Ask => "询问"@,
        Mode::Auto => "自动"@,
        Mode::Plan => "计划"@,
    }
}

/// The `Mode` a session runs under, named in Chinese.
pub fn mode_label(mode: Mode) -> (s: &'static str)
    ensures
        s@ == mode_label_text(mode),
{
    match mode {
        Mode::Readonly => "只读",
        Mode::Ask => "询问",
        Mode::Auto => "自动",
        Mode::Plan => "计划",
    }
}

pub open spec fn history_reason_text(reason: HistoryReason) -> Seq<char> {
    match reason {
        HistoryReason::Regenerate => "重新生成"@,
        HistoryReason::Undo => "撤销"@,
        HistoryReason::Compaction => "压缩"@,
        HistoryReason::ModeChange => "模式变更"@,
    }
}

/// The Chinese name of a history reason.
pub fn history_reason(reason: HistoryReason) -> (s: &'static str)
    ensures
        s@ == history_reason_text(reason),
{
    match reason {
        HistoryReason::Regenerate => "重新生成",
        HistoryReason::Undo => "撤销",
        HistoryReason::Compaction => "压缩",
        HistoryReason::ModeChange => "模式变更",
    }
}

/// The Chinese name of a hook mount point; an unknown point passes through.
pub open spec fn hook_point_text(point: Seq<char>) -> Seq<char> {
    if point == POINT_PRE@ {
        "工具调用前"@
    } else if point == POINT_POST@ {
        "工具调用后"@
    } else {
        point
    }
}

/// The Chinese name of a hook mount point. An unknown point is passed
/// through: the outcome already carries the hook's own text.
pub fn hook_point(point: &str) -> (s: &str)
    ensures
        s@ == hook_point_text(point@),
{
    if str_eq(point, POINT_PRE) {
        "工具调用前"
    } else if str_eq(point, POINT_POST) {
        "工具调用后"
    } else {
        point
    }
}

pub open spec fn session_error_code_text(code: Seq<char>) -> Seq<char> {
    if code == "discussion_failed"@ {
        "讨论失败"@
    } else if code == "synthesis_failed"@ {
        "合成失败"@
    } else {
        code
    }
}

/// The Chinese explanation of a session error code; an unknown code is shown
/// as itself, so a new code is never silently dropped.
pub fn session_error_code(code: &str) -> (s: &str)
    ensures
        s@ == session_error_code_text(code@),
{
    if str_eq(code, "discussion_failed") {
        "讨论失败"
    } else if str_eq(code, "synthesis_failed") {
        "合成失败"
    } else {
        code
    }
}

pub open spec fn status_word_text(busy: bool) -> Seq<char> {
    if busy {
        "工作中"@
    } else {
        "就绪"@
    }
}

/// The status word: whether a turn is in flight.
pub fn status_word(busy: bool) -> (s: &'static str)
    ensures
        s@ == status_word_text(busy),
{
    if busy {
        "工作中"
    } else {
        "就绪"
    }
}

/// The way out while the keyboard is idle: both gestures quit.
pub const EXIT_HINT_IDLE: &'static str = "ctrl-c/ctrl-d 退出";

/// The way out while a run is in flight: `Ctrl-D` is deliberately ignored.
pub const EXIT_HINT_BUSY: &'static str = "ctrl-c 退出";

pub open spec fn exit_hint_text(busy: bool) -> Seq<char> {
    if busy {
        EXIT_HINT_BUSY@
    } else {
        EXIT_HINT_IDLE@
    }
}

/// The way-out item for a status line: the idle wording only while the
/// keyboard can really quit.
pub fn exit_hint(busy: bool) -> (s: &'static str)
    ensures
        s@ == exit_hint_text(busy),
{
    if busy {
        EXIT_HINT_BUSY
    } else {
        EXIT_HINT_IDLE
    }
}

pub open spec fn questionnaire_hint_text(ready: bool) -> Seq<char> {
    if ready {
        "↑↓ 选择 · enter 提交 · space 确认 · tab 跳过 · ←→ 换题"@
    } else {
        "↑↓ 选择 · enter 继续 · space 确认 · tab 跳过 · ←→ 换题"@
    }
}

/// The keys a questionnaire offers; `enter` says `提交` only when every
/// question is handled and it really submits.
pub fn questionnaire_hint(ready: bool) -> (s: &'static str)
    ensures
        s@ == questionnaire_hint_text(ready),
{
    if ready {
        "↑↓ 选择 · enter 提交 · space 确认 · tab 跳过 · ←→ 换题"
    } else {
        "↑↓ 选择 · enter 继续 · space 确认 · tab 跳过 · ←→ 换题"
    }
}

/// The plain console's prompt for a question that offers options.
pub fn questionnaire_plain_options_prompt(multi_select: bool) -> (s: &'static str)
    ensures
        s@ == if multi_select {
            "输入编号（逗号分隔）选择，或输入文本；下一行补充；回车跳过 > "@
        } else {
            "输入编号选择，或直接输入文本；回车跳过 > "@
        },
{
    if multi_select {
        "输入编号（逗号分隔）选择，或输入文本；下一行补充；回车跳过 > "
    } else {
        "输入编号选择，或直接输入文本；回车跳过 > "
    }
}

pub open spec fn context_source_text(source: ContextSource) -> Seq<char> {
    match source {
        ContextSource::AgentsMd => "AGENTS.md"@,
        ContextSource::SkillsCatalog => "技能清单"@,
        ContextSource::Skill => "技能"@,
        ContextSource::PlanMode => "计划模式"@,
        ContextSource::Persona(name) => "人物："@ + name@,
    }
}

/// The Chinese name of a context source; a persona says whose it is.
pub fn context_source(source: &ContextSource) -> (s: String)
    ensures
        s@ == context_source_text(*source),
{
    let mut s = String::new();
    match source {
        ContextSource::AgentsMd => push_str(&mut s, "AGENTS.md"),
        ContextSource::SkillsCatalog => push_str(&mut s, "技能清单"),
        ContextSource::Skill => push_str(&mut s, "技能"),
        ContextSource::PlanMode => push_str(&mut s, "计划模式"),
        ContextSource::Persona(name) => {
            push_str(&mut s, "人物：");
            push_str(&mut s, name.as_str());
        },
    }
    s
}

pub open spec fn speaker_label_text(speaker: SpeakerId) -> Seq<char> {
    match speaker {
        SpeakerId::Debater(id) => "["@ + id@ + "]"@,
        SpeakerId::Executor(id) => "[执行者 "@ + id@ + "]"@,
        SpeakerId::User => "[用户]"@,
        SpeakerId::System => "[系统]"@,
    }
}

/// The human's `[speaker]` prefix: a debater keeps its own name, the
/// unattributed speakers get a Chinese label.
pub fn speaker_label(speaker: &SpeakerId) -> (s: String)
    ensures
        s@ == speaker_label_text(*speaker),
{
    let mut s = String::new();
    match speaker {
        SpeakerId::Debater(id) => {
            push_str(&mut s, "[");
            push_str(&mut s, id.as_str());
            push_str(&mut s, "]");
        },
        SpeakerId::Executor(id) => {
            push_str(&mut s, "[执行者 ");
            push_str(&mut s, id.as_str());
            push_str(&mut s, "]");
        },
        SpeakerId::User => push_str(&mut s, "[用户]"),
        SpeakerId::System => push_str(&mut s, "[系统]"),
    }
    s
}

/// `d` with a comma before every digit that starts a group of three from the
/// right, from position `i` on.
pub open spec fn grouped_from(d: Seq<char>, i: int) -> Seq<char>
    decreases d.len() - i,
{
    if i < 0 || i >= d.len() {
        seq![]
    } else {
        (if i > 0 && (d.len() - i) % 3 == 0 {
            seq![',']
        } else {
            seq![]
        }) + seq![d[i]] + grouped_from(d, i + 1)
    }
}

/// A count with thousands separators: `12,345`.
pub open spec fn thousands_text(n: nat) -> Seq<char> {
    grouped_from(decimal(n), 0)
}

/// A count with thousands separators: `12,345`.
pub fn thousands(value: u64) -> (s: String)
    ensures
        s@ == thousands_text(value as nat),
{
    let digits = crate::text::chars_of(decimal_string(value).as_str());
    let ghost d = digits@;
    let mut s = String::new();
    let mut i: usize = 0;
    assert(s@ + grouped_from(d, 0) =~= grouped_from(d, 0));
    while i < digits.len()
        invariant
            d == digits@,
            d == decimal(value as nat),
            i <= d.len(),
            s@ + grouped_from(d, i as int) == grouped_from(d, 0),
        decreases d.len() - i,
    {
        let ghost before = s@;
        if i > 0 && (digits.len() - i) % 3 == 0 {
            push_char(&mut s, ',');
        }
        push_char(&mut s, digits[i]);
        i += 1;
        assert(s@ + grouped_from(d, i as int) =~= before + grouped_from(d, i - 1));
    }
    assert(grouped_from(d, i as int) =~= seq![]);
    s
}

/// Two counts in one field: `12,345 / 100,000`.
pub open spec fn pair_text(left: nat, right: nat) -> Seq<char> {
    thousands_text(left) + " / "@ + thousands_text(right)
}

fn pair(left: u64, right: u64) -> (s: String)
    ensures
        s@ == pair_text(left as nat, right as nat),
{
    let mut s = thousands(left);
    push_str(&mut s, " / ");
    push_str(&mut s, thousands(right).as_str());
    s
}

/// What the session has spent, against its allowance when it has one.
pub fn token_pair(used: u64, limit: Option<u64>) -> (s: String)
    ensures
        s@ == match limit {
            Some(l) => pair_text(used as nat, l as nat),
            None => thousands_text(used as nat),
        },
{
    match limit {
        Some(limit) => pair(used, limit),
        None => thousands(used),
    }
}

/// What a field shows when there is no number for it yet.
pub const PANEL_UNKNOWN: &'static str = "—";

/// A label in the information panel.
pub const PANEL_MODEL: &'static str = "模型";

pub const PANEL_CONTEXT: &'static str = "上下文";

pub const PANEL_TOKENS: &'static str = "token";

/// **Turn**, not round: the panel counts ended turns.
pub const PANEL_TURNS: &'static str = "回合";

pub const PANEL_INPUT: &'static str = "输入";

pub const PANEL_OUTPUT: &'static str = "输出";

pub const PANEL_CACHE: &'static str = "缓存";

/// The share of the window used, in whole percent, multiplication saturating
/// and the window read as at least one.
pub open spec fn share_percent(used: nat, usable: nat) -> nat {
    let scaled = if used * 100 > u64::MAX {
        u64::MAX as nat
    } else {
        used * 100
    };
    scaled / (if usable == 0 {
        1nat
    } else {
        usable
    })
}

/// How full the model's window is: `12,345 / 200,000（6%）`, or the unknown
/// mark before a call has reported its input tokens.
pub fn context_pair(used: Option<u64>, usable: u64, with_share: bool) -> (s: String)
    ensures
        s@ == match used {
            None => PANEL_UNKNOWN@,
            Some(u) => pair_text(u as nat, usable as nat) + if with_share {
                "（"@ + decimal(share_percent(u as nat, usable as nat)) + "%）"@
            } else {
                seq![]
            },
        },
{
    match used {
        None => {
            let mut s = String::new();
            push_str(&mut s, PANEL_UNKNOWN);
            s
        },
        Some(u) => {
            let mut s = pair(u, usable);
            if with_share {
                let scaled = if u > u64::MAX / 100 {
                    u64::MAX
                } else {
                    u * 100
                };
                let divisor = if usable == 0 {
                    1
                } else {
                    usable
                };
                push_str(&mut s, "（");
                push_decimal(&mut s, scaled / divisor);
                push_str(&mut s, "%）");
            }
            s
        },
    }
}

/// The absent speakers' labels, joined.
pub open spec fn absent_names(absent: Seq<SpeakerId>) -> Seq<char> {
    join(absent.map_values(|sp: SpeakerId| speaker_label_text(sp)), "、"@)
}

/// What `discuss` reports once the discussion is over: why it stopped, how
/// many rounds ran, and who was absent.
pub fn discussion_ended(reason: StopReason, rounds: u32, absent: &[SpeakerId]) -> (s: String)
    ensures
        s@ == "讨论结束："@ + stop_reason_text(reason) + "（跑了 "@ + decimal(rounds as nat)
            + " 轮）"@ + if absent@.len() > 0 {
            "；缺席："@ + absent_names(absent@)
        } else {
            seq![]
        },
{
    let mut s = String::new();
    push_str(&mut s, "讨论结束：");
    push_str(&mut s, stop_reason(reason));
    push_str(&mut s, "（跑了 ");
    push_decimal(&mut s, rounds as u64);
    push_str(&mut s, " 轮）");
    if absent.len() > 0 {
        push_str(&mut s, "；缺席：");
        let ghost head = s@;
        let ghost parts = absent@.map_values(|sp: SpeakerId| speaker_label_text(sp));
        let mut i: usize = 0;
        while i < absent.len()
            invariant
                i <= absent@.len(),
                parts == absent@.map_values(|sp: SpeakerId| speaker_label_text(sp)),
                s@ == head + join(parts.take(i as int), "、"@),
            decreases absent@.len() - i,
        {
            proof {
                lemma_join_step(parts, "、"@, i as int);
            }
            if i > 0 {
                push_str(&mut s, "、");
            }
            push_str(&mut s, speaker_label(&absent[i]).as_str());
            i += 1;
        }
        assert(parts.take(absent@.len() as int) =~= parts);
    }
    s
}

/// One debater as a notice names it: `保守（deepseek-v4-pro）`, or the name
/// alone when the debater is named after its model.
pub fn debater_label(name: &str, model: &str) -> (s: String)
    ensures
        s@ == if name@ == model@ {
            name@
        } else {
            name@ + "（"@ + model@ + "）"@
        },
{
    let mut s = String::new();
    push_str(&mut s, name);
    if !str_eq(name, model) {
        push_str(&mut s, "（");
        push_str(&mut s, model);
        push_str(&mut s, "）");
    }
    s
}

/// `--debaters` naming something the pool does not have.
pub fn unknown_debater(name: &str, pool: &[&str]) -> (s: String)
    ensures
        s@ == "池子里没有叫 `"@ + name@ + "` 的讨论者；可用："@ + join(
            pool@.map_values(|p: &str| "`"@ + p@ + "`"@),
            "、"@,
        ),
{
    let mut s = String::new();
    push_str(&mut s, "池子里没有叫 `");
    push_str(&mut s, name);
    push_str(&mut s, "` 的讨论者；可用：");
    let ghost head = s@;
    let ghost parts = pool@.map_values(|p: &str| "`"@ + p@ + "`"@);
    let mut i: usize = 0;
    while i < pool.len()
        invariant
            i <= pool@.len(),
            parts == pool@.map_values(|p: &str| "`"@ + p@ + "`"@),
            s@ == head + join(parts.take(i as int), "、"@),
        decreases pool@.len() - i,
    {
        proof {
            lemma_join_step(parts, "、"@, i as int);
        }
        if i > 0 {
            push_str(&mut s, "、");
        }
        push_str(&mut s, "`");
        push_str(&mut s, pool[i]);
        push_str(&mut s, "`");
        i += 1;
    }
    assert(parts.take(pool@.len() as int) =~= parts);
    s
}

/// A tool result trimmed to `max_chars`, marking the cut so a complete short
/// result can be told from an elided long one.
pub fn tool_output_preview(text: &str, max_chars: usize) -> (s: String)
    ensures
        s@ == if text@.len() <= max_chars {
            text@
        } else {
            text@.take(max_chars as int) + "…（结果已省略）"@
        },
{
    let chars = crate::text::chars_of(text);
    if chars.len() <= max_chars {
        return text.to_owned();
    }
    let mut s = crate::text::string_of_range(&chars, 0, max_chars);
    push_str(&mut s, "…（结果已省略）");
    s
}

pub open spec fn finish_reason_text(reason: FinishReason) -> Seq<char> {
    match reason {
        FinishReason::Stop => "正常停止"@,
        FinishReason::Length => "达到长度上限"@,
        FinishReason::ToolCalls => "请求工具"@,
        FinishReason::ContentFilter => "内容被过滤"@,
        FinishReason::InsufficientSystemResource => "系统资源不足"@,
        FinishReason::Aborted => "已取消"@,
        FinishReason::Other(other) => other@,
    }
}

/// The provider's own terminal label, named in Chinese.
pub fn finish_reason(reason: &FinishReason) -> (s: &str)
    ensures
        s@ == finish_reason_text(*reason),
{
    match reason {
        FinishReason::Stop => "正常停止",
        FinishReason::Length => "达到长度上限",
        FinishReason::ToolCalls => "请求工具",
        FinishReason::ContentFilter => "内容被过滤",
        FinishReason::InsufficientSystemResource => "系统资源不足",
        FinishReason::Aborted => "已取消",
        FinishReason::Other(other) => other.as_str(),
    }
}

pub open spec fn stop_reason_name_text(name: Seq<char>) -> Seq<char> {
    if name == "Completed"@ {
        stop_reason_text(StopReason::Completed)
    } else if name == "MaxIterations"@ {
        stop_reason_text(StopReason::MaxIterations)
    } else if name == "Aborted"@ {
        stop_reason_text(StopReason::Aborted)
    } else if name == "MistakeLimit"@ {
        stop_reason_text(StopReason::MistakeLimit)
    } else if name == "Error"@ {
        stop_reason_text(StopReason::Error)
    } else if name == "Consensus"@ {
        stop_reason_text(StopReason::Consensus)
    } else if name == "NoDivergence"@ {
        stop_reason_text(StopReason::NoDivergence)
    } else if name == "RoundsExhausted"@ {
        stop_reason_text(StopReason::RoundsExhausted)
    } else if name == "BudgetExhausted"@ {
        stop_reason_text(StopReason::BudgetExhausted)
    } else {
        name
    }
}

/// The Chinese phrase for a stopping point recorded as its name; an unknown
/// name is shown as itself.
pub fn stop_reason_name(name: &str) -> (s: &str)
    ensures
        s@ == stop_reason_name_text(name@),
{
    if str_eq(name, "Completed") {
        stop_reason(StopReason::Completed)
    } else if str_eq(name, "MaxIterations") {
        stop_reason(StopReason::MaxIterations)
    } else if str_eq(name, "Aborted") {
        stop_reason(StopReason::Aborted)
    } else if str_eq(name, "MistakeLimit") {
        stop_reason(StopReason::MistakeLimit)
    } else if str_eq(name, "Error") {
        stop_reason(StopReason::Error)
    } else if str_eq(name, "Consensus") {
        stop_reason(StopReason::Consensus)
    } else if str_eq(name, "NoDivergence") {
        stop_reason(StopReason::NoDivergence)
    } else if str_eq(name, "RoundsExhausted") {
        stop_reason(StopReason::RoundsExhausted)
    } else if str_eq(name, "BudgetExhausted") {
        stop_reason(StopReason::BudgetExhausted)
    } else {
        name
    }
}

/// The Chinese phrase for a permission verdict recorded as its name.
pub fn decision_name(name: &str) -> (s: &str)
    ensures
        s@ == if name@ == "allow"@ {
            decision_text(Decision::Allow)
        } else if name@ == "ask"@ {
            decision_text(Decision::Ask)
        } else if name@ == "deny"@ {
            decision_text(Decision::Deny)
        } else {
            name@
        },
{
    if str_eq(name, "allow") {
        decision(Decision::Allow)
    } else if str_eq(name, "ask") {
        decision(Decision::Ask)
    } else if str_eq(name, "deny") {
        decision(Decision::Deny)
    } else {
        name
    }
}

pub open spec fn permission_asked_text(tool_name: Option<Seq<char>>, args: Seq<char>) -> Seq<
    char,
> {
    match tool_name {
        Some(tool) => if args.len() == 0 {
            "权限询问："@ + tool
        } else {
            "权限询问："@ + tool + "（"@ + args + "）"@
        },
        None => if args.len() == 0 {
            "权限询问"@
        } else {
            "权限询问（"@ + args + "）"@
        },
    }
}

/// An `Option<&str>`'s text.
pub open spec fn opt_text(o: Option<&str>) -> Option<Seq<char>> {
    match o {
        Some(t) => Some(t@),
        None => None,
    }
}

/// A permission question on the transcript: the tool and the concrete call it
/// would make; the request ids are not shown.
pub fn permission_asked(tool_name: Option<&str>, args: &str) -> (s: String)
    ensures
        s@ == permission_asked_text(opt_text(tool_name), args@),
{
    let mut s = String::new();
    match tool_name {
        Some(tool) => {
            push_str(&mut s, "权限询问：");
            push_str(&mut s, tool);
            if !args.is_empty() {
                push_str(&mut s, "（");
                push_str(&mut s, args);
                push_str(&mut s, "）");
            }
        },
        None => {
            if args.is_empty() {
                push_str(&mut s, "权限询问");
            } else {
                push_str(&mut s, "权限询问（");
                push_str(&mut s, args);
                push_str(&mut s, "）");
            }
        },
    }
    s
}

/// The **title** row of a permission overlay: what is being asked, in the
/// tool's own name.
pub fn permission_title(tool_name: &str) -> (s: String)
    ensures
        s@ == permission_asked_text(Some(tool_name@), seq![]),
{
    proof {
        reveal_strlit("");
    }
    permission_asked(Some(tool_name), "")
}

/// A permission verdict and who decided it, with the stated reason when
/// there is one.
pub fn permission_decided(decision: Decision, source: DecisionSource, reason: Option<&str>) -> (s:
    String)
    ensures
        s@ == "权限裁决："@ + decision_text(decision) + "（"@ + decision_source_text(source)
            + "）"@ + match reason {
            Some(r) => "："@ + r@,
            None => seq![],
        },
{
    let mut s = String::new();
    push_str(&mut s, "权限裁决：");
    push_str(&mut s, self::decision(decision));
    push_str(&mut s, "（");
    push_str(&mut s, decision_source(source));
    push_str(&mut s, "）");
    match reason {
        Some(r) => {
            push_str(&mut s, "：");
            push_str(&mut s, r);
        },
        None => {},
    }
    s
}

/// The **body** row of a permission overlay: the concrete call the question
/// is about, led by the tool name.
pub fn permission_call(tool_name: &str, args: &str) -> (s: String)
    ensures
        s@ == if args@.len() == 0 {
            tool_name@
        } else {
            tool_name@ + "（"@ + args@ + "）"@
        },
{
    let mut s = String::new();
    push_str(&mut s, tool_name);
    if !args.is_empty() {
        push_str(&mut s, "（");
        push_str(&mut s, args);
        push_str(&mut s, "）");
    }
    s
}

/// A history range that stopped being authoritative; without a summary the
/// line still says what happened.
pub fn history(reason: HistoryReason, summary: Option<&str>) -> (s: String)
    ensures
        s@ == "[历史："@ + history_reason_text(reason) + "] "@ + match summary {
            Some(t) => t@,
            None => "历史已被取代"@,
        },
{
    let mut s = String::new();
    push_str(&mut s, "[历史：");
    push_str(&mut s, history_reason(reason));
    push_str(&mut s, "] ");
    match summary {
        Some(t) => push_str(&mut s, t),
        None => push_str(&mut s, "历史已被取代"),
    }
    s
}

/// The `sessions replay` label for a user message, naming the speaker when
/// the projection recorded one.
pub fn replay_user(name: Option<&str>) -> (s: String)
    ensures
        s@ == match name {
            Some(n) => "[用户 "@ + n@ + "]"@,
            None => "[用户]"@,
        },
{
    let mut s = String::new();
    match name {
        Some(n) => {
            push_str(&mut s, "[用户 ");
            push_str(&mut s, n);
            push_str(&mut s, "]");
        },
        None => push_str(&mut s, "[用户]"),
    }
    s
}

/// A round-grouped section line in `sessions show`.
pub fn round_group(round: u32, mode: Option<RoundMode>) -> (s: String)
    ensures
        s@ == match mode {
            Some(m) => "── 第 "@ + decimal(round as nat) + " 轮（"@ + round_mode_text(m) + "）──"@,
            None => "── 第 "@ + decimal(round as nat) + " 轮 ──"@,
        },
{
    match mode {
        Some(mode) => round_section(round, mode),
        None => {
            let mut s = String::new();
            push_str(&mut s, "── 第 ");
            push_decimal(&mut s, round as u64);
            push_str(&mut s, " 轮 ──");
            s
        },
    }
}

/// The startup banner: what this session is, in Chinese labels.
pub fn banner(session: &str, model: &str, mode: Mode, dir: &str, continued: bool) -> (s: String)
    ensures
        s@ == "fs-agent：会话 "@ + session@ + " · 模型 "@ + model@ + " · 模式 "@ + mode_label_text(
            mode,
        ) + " · "@ + dir@ + if continued {
            "（已继续）"@
        } else {
            seq![]
        },
{
    let mut s = String::new();
    push_str(&mut s, "fs-agent：会话 ");
    push_str(&mut s, session);
    push_str(&mut s, " · 模型 ");
    push_str(&mut s, model);
    push_str(&mut s, " · 模式 ");
    push_str(&mut s, mode_label(mode));
    push_str(&mut s, " · ");
    push_str(&mut s, dir);
    if continued {
        push_str(&mut s, "（已继续）");
    }
    s
}


/// One key on a question's button row: the key that answers, and what that
/// answer means. Both front ends build their rows from the same tables, so a
/// question cannot offer a key on one that the other does not.
#[derive(Debug, Clone, Copy, PartialEq, Eq)]
pub struct Choice {
    /// The key that answers, shown literally.
    pub key: char,
    /// What that key answers.
    pub label: &'static str,
}

/// One button as text: `[key] label`.
pub open spec fn choice_text(c: Choice) -> Seq<char> {
    "["@.push(c.key) + "] "@ + c.label@
}

/// A button row as text: each button's text, joined by ` / `.
pub open spec fn choices_text_of(cs: Seq<Choice>) -> Seq<char> {
    join(cs.map_values(|c: Choice| choice_text(c)), " / "@)
}

/// A button row as one line of text: `[y] 允许 / [a] 总是允许 / [n] 拒绝`.
pub fn choices_text(choices: &[Choice]) -> (s: String)
    ensures
        s@ == choices_text_of(choices@),
{
    let ghost parts = choices@.map_values(|c: Choice| choice_text(c));
    let mut s = String::new();
    let mut i: usize = 0;
    while i < choices.len()
        invariant
            i <= choices@.len(),
            parts == choices@.map_values(|c: Choice| choice_text(c)),
            s@ == join(parts.take(i as int), " / "@),
        decreases choices@.len() - i,
    {
        let ghost before = s@;
        if i > 0 {
            push_str(&mut s, " / ");
        }
        let c = choices[i];
        push_str(&mut s, "[");
        push_char(&mut s, c.key);
        push_str(&mut s, "] ");
        push_str(&mut s, c.label);
        proof {
            lemma_join_step(parts, " / "@, i as int);
            assert(parts[i as int] == choice_text(c));
            if i == 0 {
                assert(before =~= seq![]);
                assert(s@ =~= choice_text(c));
            } else {
                assert(s@ =~= before + " / "@ + choice_text(c));
            }
        }
        i += 1;
    }
    assert(parts.take(choices@.len() as int) =~= parts);
    s
}

/// The keys that answer a permission question, in row order.
pub open spec fn permission_choices_seq() -> Seq<Choice> {
    seq![
        Choice { key: 'y', label: "允许" },
        Choice { key: 'a', label: "总是允许" },
        Choice { key: 'n', label: "拒绝" },
    ]
}

/// The keys that answer a permission question.
pub fn permission_choices() -> (cs: [Choice; 3])
    ensures
        cs@ == permission_choices_seq(),
{
    let cs = [
        Choice { key: 'y', label: "允许" },
        Choice { key: 'a', label: "总是允许" },
        Choice { key: 'n', label: "拒绝" },
    ];
    assert(cs@ =~= permission_choices_seq());
    cs
}

/// The keys that answer a plan-mode conflict, in row order.
pub open spec fn plan_choices_seq() -> Seq<Choice> {
    seq![
        Choice { key: 'o', label: "覆盖" },
        Choice { key: 'a', label: "追加" },
        Choice { key: 'k', label: "保留" },
    ]
}

/// The keys that answer a plan-mode conflict.
pub fn plan_choices() -> (cs: [Choice; 3])
    ensures
        cs@ == plan_choices_seq(),
{
    let cs = [
        Choice { key: 'o', label: "覆盖" },
        Choice { key: 'a', label: "追加" },
        Choice { key: 'k', label: "保留" },
    ];
    assert(cs@ =~= plan_choices_seq());
    cs
}

/// The keys that answer the oversized-paste question.
pub fn paste_choices() -> (cs: [Choice; 2])
    ensures
        cs@ == seq![Choice { key: 'y', label: "粘贴" }, Choice { key: 'n', label: "取消" }],
{
    let cs = [Choice { key: 'y', label: "粘贴" }, Choice { key: 'n', label: "取消" }];
    assert(cs@ =~= seq![Choice { key: 'y', label: "粘贴" }, Choice { key: 'n', label: "取消" }]);
    cs
}

/// The keys that answer the clear-draft question.
pub fn clear_choices() -> (cs: [Choice; 2])
    ensures
        cs@ == seq![Choice { key: 'y', label: "清空" }, Choice { key: 'n', label: "保留" }],
{
    let cs = [Choice { key: 'y', label: "清空" }, Choice { key: 'n', label: "保留" }];
    assert(cs@ =~= seq![Choice { key: 'y', label: "清空" }, Choice { key: 'n', label: "保留" }]);
    cs
}

/// The keys that answer the exit confirmation; `n` is the safe one.
pub fn exit_choices() -> (cs: [Choice; 2])
    ensures
        cs@ == seq![Choice { key: 'y', label: "退出" }, Choice { key: 'n', label: "取消" }],
{
    let cs = [Choice { key: 'y', label: "退出" }, Choice { key: 'n', label: "取消" }];
    assert(cs@ =~= seq![Choice { key: 'y', label: "退出" }, Choice { key: 'n', label: "取消" }]);
    cs
}

/// The sentence a permission overlay shows for a tool: what the tool is for,
/// never what a particular argument means.
pub open spec fn permission_summary_text(name: Seq<char>) -> Seq<char> {
    if name == BASH_TOOL@ {
        "在你的工作区里执行一条 shell 命令（可以读写文件、访问网络）"@
    } else if name == READ_FILE@ {
        "读取一个文件的内容"@
    } else if name == WRITE_FILE@ {
        "写入一个文件（新建，或者整体覆盖已有的）"@
    } else if name == EDIT_FILE@ {
        "修改一个文件里的一段内容"@
    } else if name == TASK_TOOL@ {
        "派出一个执行者去干活，它有自己的轮数预算"@
    } else if name == SKILL_TOOL@ {
        "把一份技能说明加载进上下文"@
    } else if name == REPO_MAP_TOOL@ {
        "扫一遍仓库，生成一份符号地图（只读）"@
    } else if is_custom_name(name) {
        match custom_parts(name) {
            Some((namespace, tool)) => "运行你在配置里声明的自定义工具 "@ + namespace + "/"@ + tool,
            None => "运行一个你在配置里声明的自定义工具"@,
        }
    } else {
        "调用 "@ + name + " 工具"@
    }
}

/// The **summary** row of a permission overlay: one plain sentence saying what
/// the call does. A name the table does not know still gets one, since tools
/// can also be declared in configuration.
pub fn permission_summary(tool_name: &str) -> (s: String)
    ensures
        s@ == permission_summary_text(tool_name@),
{
    if str_eq(tool_name, BASH_TOOL) {
        return "在你的工作区里执行一条 shell 命令（可以读写文件、访问网络）".to_string();
    }
    if str_eq(tool_name, READ_FILE) {
        return "读取一个文件的内容".to_string();
    }
    if str_eq(tool_name, WRITE_FILE) {
        return "写入一个文件（新建，或者整体覆盖已有的）".to_string();
    }
    if str_eq(tool_name, EDIT_FILE) {
        return "修改一个文件里的一段内容".to_string();
    }
    if str_eq(tool_name, TASK_TOOL) {
        return "派出一个执行者去干活，它有自己的轮数预算".to_string();
    }
    if str_eq(tool_name, SKILL_TOOL) {
        return "把一份技能说明加载进上下文".to_string();
    }
    if str_eq(tool_name, REPO_MAP_TOOL) {
        return "扫一遍仓库，生成一份符号地图（只读）".to_string();
    }
    let mut s = String::new();
    if is_custom_tool(tool_name) {
        match custom_tool_parts(tool_name) {
            Some((namespace, tool)) => {
                push_str(&mut s, "运行你在配置里声明的自定义工具 ");
                push_str(&mut s, namespace);
                push_str(&mut s, "/");
                push_str(&mut s, tool);
            },
            None => {
                push_str(&mut s, "运行一个你在配置里声明的自定义工具");
            },
        }
    } else {
        push_str(&mut s, "调用 ");
        push_str(&mut s, tool_name);
        push_str(&mut s, " 工具");
    }
    s
}

/// The first non-empty line, trimmed, among the lines from `pos` on.
pub open spec fn first_line_from(s: Seq<char>, pos: int) -> Seq<char>
    decreases s.len() - pos,
{
    if pos < 0 || pos >= s.len() {
        seq![]
    } else {
        let t = trim_by(line_text(s, pos), Trimmed::Space);
        if t.len() > 0 {
            t
        } else {
            proof {
                lemma_char_line_end(s, pos);
            }
            first_line_from(s, char_line_end(s, pos))
        }
    }
}

/// The first non-empty line of a block of text, trimmed; empty when there is
/// none.
pub open spec fn first_non_empty_line_text(s: Seq<char>) -> Seq<char> {
    first_line_from(s, 0)
}

/// The first non-empty line of a block of text, trimmed: a question can be a
/// paragraph, and a notice has one line.
fn first_non_empty_line(text: &str) -> (r: String)
    ensures
        r@ == first_non_empty_line_text(text@),
{
    let v = chars_of(text);
    let mut pos: usize = 0;
    while pos < v.len()
        invariant
            pos <= v@.len(),
            v@ == text@,
            first_line_from(v@, pos as int) == first_line_from(v@, 0),
        decreases v@.len() - pos,
    {
        let (hi, next) = line_span(&v, pos);
        let (a, e) = trim_at(&v, pos, hi, Trimmed::Space);
        if a < e {
            return string_of_range(&v, a, e);
        }
        pos = next;
    }
    String::new()
}

/// `/discuss` is about to run: which two models, and what they are asked. The
/// question is named because it may not have been typed.
pub fn discussion_starting(first: &str, second: &str, question: &str) -> (s: String)
    ensures
        s@ == "开始讨论："@ + first@ + " × "@ + second@ + "；题目："@
            + first_non_empty_line_text(question@),
{
    let line = first_non_empty_line(question);
    let mut s = String::new();
    push_str(&mut s, "开始讨论：");
    push_str(&mut s, first);
    push_str(&mut s, " × ");
    push_str(&mut s, second);
    push_str(&mut s, "；题目：");
    push_str(&mut s, line.as_str());
    s
}

/// The suffix a model appends to recommend an option.
pub const RECOMMENDED_SUFFIX: &'static str = "(Recommended)";

/// An option label split into what is shown and whether it is recommended: the
/// suffix counts only at the end (after trailing whitespace), case-sensitively,
/// and is dropped together with the whitespace before it.
pub open spec fn recommended_split(label: Seq<char>) -> (Seq<char>, bool) {
    let t = trim_end_by(label, Trimmed::Space);
    let n = RECOMMENDED_SUFFIX@.len();
    if t.len() >= n && t.skip(t.len() - n) == RECOMMENDED_SUFFIX@ {
        (trim_end_by(t.take(t.len() - n), Trimmed::Space), true)
    } else {
        (label, false)
    }
}

/// Split a model-supplied option label into what is shown and whether it is
/// recommended. The answer still carries the whole label, marker and all.
pub fn recommended_label(label: &str) -> (r: (&str, bool))
    ensures
        (r.0@, r.1) == recommended_split(label@),
{
    let v = chars_of(label);
    assert(v@.subrange(0, v@.len() as int) =~= v@);
    let e = trim_end_at(&v, 0, v.len(), Trimmed::Space);
    let suffix = chars_of(RECOMMENDED_SUFFIX);
    let n = suffix.len();
    let ghost t = v@.subrange(0, e as int);
    if e >= n && occurs_at_exec(&v, e - n, &suffix) {
        let cut = e - n;
        assert(t.skip(t.len() - n) =~= v@.subrange(cut as int, e as int));
        assert(t.take(t.len() - n) =~= v@.subrange(0, cut as int));
        let f = trim_end_at(&v, 0, cut, Trimmed::Space);
        let shown = label.substring_char(0, f);
        (shown, true)
    } else {
        proof {
            if t.len() >= n && t.skip(t.len() - n) == suffix@ {
                assert(t.skip(t.len() - n) =~= v@.subrange(e - n, e as int));
            }
        }
        (label, false)
    }
}

/// What an option line adds for its description: ` — ` and the trimmed text,
/// or nothing when there is none or it is blank.
pub open spec fn option_description(description: Option<Seq<char>>) -> Seq<char> {
    match description {
        Some(d) => if trim_by(d, Trimmed::Space).len() > 0 {
            " — "@ + trim_by(d, Trimmed::Space)
        } else {
            seq![]
        },
        None => seq![],
    }
}

/// `{number}. {label}{badge} — {description}`.
pub open spec fn questionnaire_option_text(
    number: nat,
    label: Seq<char>,
    description: Option<Seq<char>>,
) -> Seq<char> {
    let (shown, recommended) = recommended_split(label);
    decimal(number) + ". "@ + shown + (if recommended {
        "（推荐）"@
    } else {
        seq![]
    }) + option_description(description)
}

/// One option of a model's question, as both human front ends show it. The
/// `(Recommended)` suffix becomes the badge; the number is a reading index.
pub fn questionnaire_option(number: usize, label: &str, description: Option<&str>) -> (s: String)
    ensures
        s@ == questionnaire_option_text(number as nat, label@, opt_text(description)),
{
    let (shown, recommended) = recommended_label(label);
    let mut s = String::new();
    push_decimal(&mut s, number as u64);
    push_str(&mut s, ". ");
    push_str(&mut s, shown);
    if recommended {
        push_str(&mut s, recommended_badge());
    }
    let ghost before = s@;
    match description {
        Some(d) => {
            let dv = chars_of(d);
            assert(dv@.subrange(0, dv@.len() as int) =~= dv@);
            let (a, e) = trim_at(&dv, 0, dv.len(), Trimmed::Space);
            if a < e {
                push_str(&mut s, " — ");
                let body = string_of_range(&dv, a, e);
                push_str(&mut s, body.as_str());
            }
        },
        None => {},
    }
    assert(s@ == before + option_description(opt_text(description)));
    s
}

/// The live key hints, most used first.
pub open spec fn key_hints_seq() -> Seq<Seq<char>> {
    seq!["enter 发送"@, "ctrl-j 换行"@, "esc 取消"@, "shift+tab 计划"@, "PgUp/PgDn 滚动"@]
}

/// The hints of a front end that is not reading lines: stop the run, read back.
pub open spec fn viewer_hints_seq() -> Seq<Seq<char>> {
    seq!["esc 取消"@, "PgUp/PgDn 滚动"@]
}

/// The texts of a list of string slices.
pub open spec fn texts(hints: Seq<&str>) -> Seq<Seq<char>> {
    hints.map_values(|h: &str| h@)
}

fn key_hints() -> (h: [&'static str; 5])
    ensures
        texts(h@) == key_hints_seq(),
        forall|i: int| 0 <= i < h@.len() ==> measurable(#[trigger] h@[i]@),
{
    proof {
        reveal_strlit("enter 发送");
        reveal_strlit("ctrl-j 换行");
        reveal_strlit("esc 取消");
        reveal_strlit("shift+tab 计划");
        reveal_strlit("PgUp/PgDn 滚动");
    }
    let h = ["enter 发送", "ctrl-j 换行", "esc 取消", "shift+tab 计划", "PgUp/PgDn 滚动"];
    assert(texts(h@) =~= key_hints_seq());
    h
}

fn viewer_hints() -> (h: [&'static str; 2])
    ensures
        texts(h@) == viewer_hints_seq(),
        forall|i: int| 0 <= i < h@.len() ==> measurable(#[trigger] h@[i]@),
{
    proof {
        reveal_strlit("esc 取消");
        reveal_strlit("PgUp/PgDn 滚动");
    }
    let h = ["esc 取消", "PgUp/PgDn 滚动"];
    assert(texts(h@) =~= viewer_hints_seq());
    h
}

/// The hints from `i` on that still fit, after `chosen`: each is taken while
/// the row so far, a separator and the way out fit in `width` columns.
pub open spec fn chosen_hints(
    hints: Seq<Seq<char>>,
    exit: Seq<char>,
    width: int,
    i: int,
    chosen: Seq<char>,
) -> Seq<char>
    decreases hints.len() - i,
{
    if i < 0 || i >= hints.len() {
        chosen
    } else {
        let candidate = if chosen.len() == 0 {
            hints[i]
        } else {
            chosen + " · "@ + hints[i]
        };
        if cell_width(candidate) + cell_width(" · "@) + cell_width(exit) > width {
            chosen
        } else {
            chosen_hints(hints, exit, width, i + 1, candidate)
        }
    }
}

/// The status line both front ends share: hints from the left, the way out
/// reserved at their end, and the state word leading only when it still fits.
pub open spec fn hint_line_text(
    state: Seq<char>,
    hints: Seq<Seq<char>>,
    exit: Seq<char>,
    width: int,
) -> Seq<char> {
    let chosen = chosen_hints(hints, exit, width, 0, seq![]);
    let run = if chosen.len() == 0 {
        exit
    } else {
        chosen + " · "@ + exit
    };
    let with_state = state + " · "@ + run;
    if cell_width(with_state) <= width {
        with_state
    } else {
        run
    }
}

fn hint_line(state: &str, hints: &[&str], exit: &str, width: u16) -> (s: String)
    requires
        measurable(state@),
        measurable(exit@),
        forall|i: int| 0 <= i < hints@.len() ==> measurable(#[trigger] hints@[i]@),
    ensures
        s@ == hint_line_text(state@, texts(hints@), exit@, width as int),
{
    proof {
        reveal_strlit(" · ");
    }
    let ghost hs = texts(hints@);
    let ghost target = chosen_hints(hs, exit@, width as int, 0, seq![]);
    let exit_columns = text_columns(exit);
    let sep_columns = text_columns(" · ");
    let mut chosen = String::new();
    let mut i: usize = 0;
    while i < hints.len()
        invariant
            i <= hints@.len(),
            hs == texts(hints@),
            forall|j: int| 0 <= j < hints@.len() ==> measurable(#[trigger] hints@[j]@),
            exit_columns == cell_width(exit@),
            sep_columns == cell_width(" · "@),
            exit_columns <= 65535,
            sep_columns <= 65535,
            " · "@.len() == 3,
            chosen_hints(hs, exit@, width as int, i as int, chosen@) == target,
        ensures
            chosen@ == target,
        decreases hints@.len() - i,
    {
        let hint = hints[i];
        let mut candidate = String::new();
        if chosen.as_str().unicode_len() > 0 {
            push_str(&mut candidate, chosen.as_str());
            push_str(&mut candidate, " · ");
        }
        push_str(&mut candidate, hint);
        assert(candidate@ == if chosen@.len() == 0 {
            hs[i as int]
        } else {
            chosen@ + " · "@ + hs[i as int]
        });
        let columns = text_columns(candidate.as_str());
        if columns + sep_columns + exit_columns > width as usize {
            break;
        }
        chosen = candidate;
        i += 1;
    }
    let mut run = String::new();
    if chosen.as_str().unicode_len() > 0 {
        push_str(&mut run, chosen.as_str());
        push_str(&mut run, " · ");
    }
    push_str(&mut run, exit);
    let mut with_state = String::new();
    push_str(&mut with_state, state);
    push_str(&mut with_state, " · ");
    push_str(&mut with_state, run.as_str());
    if text_columns(with_state.as_str()) <= width as usize {
        with_state
    } else {
        run
    }
}

/// The status line for a terminal `width` columns wide: a narrow terminal
/// keeps its way out and the hints that explain the keys, and gives up the
/// state word first.
pub fn status_line(busy: bool, width: u16) -> (s: String)
    ensures
        s@ == hint_line_text(status_word_text(busy), key_hints_seq(), exit_hint_text(busy), width as int),
{
    proof {
        reveal_strlit("工作中");
        reveal_strlit("就绪");
        reveal_strlit("ctrl-c/ctrl-d 退出");
        reveal_strlit("ctrl-c 退出");
    }
    let hints = key_hints();
    hint_line(status_word(busy), &hints, exit_hint(busy), width)
}

/// The status line for a front end that is not reading lines: the same ladder
/// over the viewer's hints, so no key is promised that does nothing.
pub fn viewer_status_line(busy: bool, width: u16) -> (s: String)
    ensures
        s@ == hint_line_text(status_word_text(busy), viewer_hints_seq(), exit_hint_text(busy), width as int),
{
    proof {
        reveal_strlit("工作中");
        reveal_strlit("就绪");
        reveal_strlit("ctrl-c/ctrl-d 退出");
        reveal_strlit("ctrl-c 退出");
    }
    let hints = viewer_hints();
    hint_line(status_word(busy), &hints, exit_hint(busy), width)
}

/// A slash command as a menu offers it and a hint names it.
#[derive(Debug, Clone, Copy, PartialEq, Eq)]
pub struct Command {
    /// The name without its slash, exactly as it must be typed.
    pub name: &'static str,
    /// One line saying what it does.
    pub description: &'static str,
}

/// The built-in slash commands, in the order every list shows them.
pub open spec fn built_in_commands_seq() -> Seq<Command> {
    seq![
        Command { name: "undo", description: "回滚上一次编辑" },
        Command { name: "plan", description: "进入硬计划模式" },
        Command { name: "endplan", description: "退出硬计划模式" },
        Command { name: "discuss", description: "起一场多角色讨论（用本会话的上下文）" },
        Command { name: "quit", description: "退出会话" },
    ]
}

/// The built-in slash commands, in the order every list shows them.
pub fn built_in_commands() -> (cs: [Command; 5])
    ensures
        cs@ == built_in_commands_seq(),
{
    let cs = [
        Command { name: "undo", description: "回滚上一次编辑" },
        Command { name: "plan", description: "进入硬计划模式" },
        Command { name: "endplan", description: "退出硬计划模式" },
        Command { name: "discuss", description: "起一场多角色讨论（用本会话的上下文）" },
        Command { name: "quit", description: "退出会话" },
    ];
    assert(cs@ =~= built_in_commands_seq());
    cs
}

/// `可用：/undo、/plan、/endplan、/discuss、/quit`.
pub open spec fn built_in_names_text() -> Seq<char> {
    "可用："@ + join(built_in_commands_seq().map_values(|c: Command| "/"@ + c.name@), "、"@)
}

/// The built-ins as one hint line; one generator, so the menu's list and the
/// unknown-command text cannot drift apart.
pub fn built_in_names() -> (s: String)
    ensures
        s@ == built_in_names_text(),
{
    let commands = built_in_commands();
    let ghost parts = built_in_commands_seq().map_values(|c: Command| "/"@ + c.name@);
    let mut s = String::new();
    push_str(&mut s, "可用：");
    let ghost head = s@;
    let mut i: usize = 0;
    while i < 5
        invariant
            i <= 5,
            commands@ == built_in_commands_seq(),
            parts == built_in_commands_seq().map_values(|c: Command| "/"@ + c.name@),
            s@ == head + join(parts.take(i as int), "、"@),
        decreases 5 - i,
    {
        proof {
            lemma_join_step(parts, "、"@, i as int);
        }
        if i > 0 {
            push_str(&mut s, "、");
        }
        push_str(&mut s, "/");
        push_str(&mut s, commands[i].name);
        i += 1;
    }
    assert(parts.take(5) =~= parts);
    s
}

/// How many skills an unknown-command notice names before it says `…`.
const LISTED_SKILLS: usize = 8;

/// The skills an unknown-command notice names: the first eight as `/name`,
/// then `…` when there are more.
pub open spec fn listed_skills(skills: Seq<Seq<char>>) -> Seq<Seq<char>> {
    if skills.len() > 8 {
        skills.take(8).map_values(|n: Seq<char>| "/"@ + n).push("…"@)
    } else {
        skills.map_values(|n: Seq<char>| "/"@ + n)
    }
}

pub open spec fn unknown_command_text(command: Seq<char>, skills: Seq<Seq<char>>) -> Seq<char> {
    if skills.len() == 0 {
        "未知命令 "@ + command + "（"@ + built_in_names_text() + "，或直接输入 /<技能名>）"@
    } else {
        "未知命令 "@ + command + "（"@ + built_in_names_text() + "；技能："@ + join(
            listed_skills(skills),
            "、"@,
        ) + "）"@
    }
}

/// A slash command the loop does not know. It names the built-ins and, when
/// there are any, the skills the user can load by name.
pub fn unknown_command(command: &str, skills: &[&str]) -> (s: String)
    ensures
        s@ == unknown_command_text(command@, texts(skills@)),
{
    let built_ins = built_in_names();
    let mut s = String::new();
    push_str(&mut s, "未知命令 ");
    push_str(&mut s, command);
    push_str(&mut s, "（");
    push_str(&mut s, built_ins.as_str());
    if skills.len() == 0 {
        push_str(&mut s, "，或直接输入 /<技能名>）");
        return s;
    }
    push_str(&mut s, "；技能：");
    let ghost head = s@;
    let ghost names = texts(skills@);
    let ghost parts = listed_skills(names);
    let shown = if skills.len() > LISTED_SKILLS {
        LISTED_SKILLS
    } else {
        skills.len()
    };
    let mut i: usize = 0;
    while i < shown
        invariant
            shown <= skills@.len(),
            shown == if skills@.len() > 8 {
                8
            } else {
                skills@.len()
            },
            i <= shown,
            names == texts(skills@),
            parts == listed_skills(names),
            s@ == head + join(parts.take(i as int), "、"@),
        decreases shown - i,
    {
        proof {
            lemma_join_step(parts, "、"@, i as int);
            assert(parts[i as int] == "/"@ + skills@[i as int]@);
        }
        if i > 0 {
            push_str(&mut s, "、");
        }
        push_str(&mut s, "/");
        push_str(&mut s, skills[i]);
        i += 1;
    }
    if skills.len() > LISTED_SKILLS {
        proof {
            lemma_join_step(parts, "、"@, 8);
        }
        push_str(&mut s, "、");
        push_str(&mut s, "…");
        assert(parts.take(9) =~= parts);
    } else {
        assert(parts.take(shown as int) =~= parts);
    }
    push_str(&mut s, "）");
    s
}

/// The mark the tall header carries, five rows of block shading; it spells
/// `fs`.
pub fn logo_lines() -> (rows: [&'static str; 5])
    ensures
        rows@[0]@ == "▄▀▀█ ▄▀▀█      ▄▀▀▄ ▄▀▀▀ ▄▀▀█ █  █ ▀█▀"@,
        rows@[1]@ == "▓▄▄  ▓         ▓▄▄▓ ▓ ▀▓ ▓▄▄  ▓▄ ▓  ▓ "@,
        rows@[2]@ == "▒     ▀▀▄ ▀▀▀▀ ▒  ▒ ▒  ▒ ▒    ▒ ▀▒  ▒ "@,
        rows@[3]@ == "░    ░  ░      ░  ░ ░  ░ ░  ▄ ░  ░  ░ "@,
        rows@[4]@ == "▀    ▀▀▀       ▀  ▀  ▀▀▀  ▀▀▀ ▀  ▀  ▀ "@,
{
    [
        "▄▀▀█ ▄▀▀█      ▄▀▀▄ ▄▀▀▀ ▄▀▀█ █  █ ▀█▀",
        "▓▄▄  ▓         ▓▄▄▓ ▓ ▀▓ ▓▄▄  ▓▄ ▓  ▓ ",
        "▒     ▀▀▄ ▀▀▀▀ ▒  ▒ ▒  ▒ ▒    ▒ ▀▒  ▒ ",
        "░    ░  ░      ░  ░ ░  ░ ░  ▄ ░  ░  ░ ",
        "▀    ▀▀▀       ▀  ▀  ▀▀▀  ▀▀▀ ▀  ▀  ▀ ",
    ]
}

/// The `sessions ls` column names, in order.
pub fn ls_columns() -> (names: [&'static str; 7])
    ensures
        texts(names@) == seq!["标识"@, "工作区"@, "开始"@, "用量"@, "轮次"@, "消息"@, "结束"@],
{
    let names = ["标识", "工作区", "开始", "用量", "轮次", "消息", "结束"];
    assert(texts(names@) =~= seq!["标识"@, "工作区"@, "开始"@, "用量"@, "轮次"@, "消息"@, "结束"@]);
    names
}

pub open spec fn error_report_text(error: Error) -> Seq<char> {
    match error {
        Error::Io(detail) => "事件流读写失败："@ + detail@,
        Error::Discussion(detail) => "讨论无法组装："@ + detail@,
        Error::Undo(detail) => "撤销失败："@ + detail@,
        Error::Skill(detail) => "技能加载失败："@ + detail@,
    }
}

/// A loop-level failure, with the kind named in Chinese and the detail passed
/// through.
pub fn error_report(error: &Error) -> (s: String)
    ensures
        s@ == error_report_text(*error),
{
    let mut s = String::new();
    match error {
        Error::Io(detail) => {
            push_str(&mut s, "事件流读写失败：");
            push_str(&mut s, detail.as_str());
        },
        Error::Discussion(detail) => {
            push_str(&mut s, "讨论无法组装：");
            push_str(&mut s, detail.as_str());
        },
        Error::Undo(detail) => {
            push_str(&mut s, "撤销失败：");
            push_str(&mut s, detail.as_str());
        },
        Error::Skill(detail) => {
            push_str(&mut s, "技能加载失败：");
            push_str(&mut s, detail.as_str());
        },
    }
    s
}

/// The header's identity field: the program and the version it was built
/// from.
pub fn identity_for(name: &str, version: &str) -> (s: String)
    ensures
        s@ == name@ + " "@ + version@,
{
    let mut s = String::new();
    push_str(&mut s, name);
    push_str(&mut s, " ");
    push_str(&mut s, version);
    s
}

/// The text of the interactive session's `--help`.
pub const HELP_INTERACTIVE: &'static str = "fs-agent [options]\n\n  \
     在当前工作区启动一个交互会话。命令：/undo 回滚上一次编辑，/plan 与 /endplan 控制\
     硬计划模式，/quit 退出；输入 /技能名 直接运行一个技能（可带任务，例如 \
     `/ask-matt 帮我看一下`），包括标了 `disable-model-invocation: true` 的技能。\
     输入 / 会弹出补全窗口，列出全部命令与技能。\
     `/discuss [--debaters A,B] [问题]` 起一场多角色讨论：两个讨论者用**本会话的上下文**\
     各自作答，只在结论冲突时开一轮定向第二轮，最后由合成器画出共识 / 分歧 / 未决；\
     `--debaters 保守,激进` 指定抽池子里的哪两个（不写就随机抽两个），不带问题就用本会话\
     最后一个问题。讨论的事件写进同一个会话，`sessions show` 能一起复盘。\
     TUI 里 Esc 取消正在跑的回合（或正在跑的讨论）；Shift+Tab 切换计划模式。\n\n  \
     --plain            使用 plain 转录（不进 raw 模式）\n  \
     --tui              使用终端界面（全屏四分区）\n  \
     --continue, -c     继续本工作区最新的会话\n  \
     --config PATH      要加载的配置文件\n  \
     --model ID         要运行的模型（默认：配置里的 default_model）\n  \
     --cwd PATH         工作区（默认：当前目录）";

/// The interactive session's `--help`.
pub fn help_interactive() -> (s: String)
    ensures
        s@ == HELP_INTERACTIVE@,
{
    HELP_INTERACTIVE.to_string()
}

/// The text of `discuss --help`.
pub const HELP_DISCUSS: &'static str = "fs-agent discuss [--plain|--tui] [--config PATH] [--cwd PATH] [--debaters A,B] \"问题\"\n\n  \
     起一次多角色讨论：两个讨论者从配置的 `[discussion] debaters` **池子**里抽——\
     `--debaters 保守,激进` 指定抽哪两个（名字来自池子里的 `name`），不写就随机抽两个。\
     池子成员是「名字 + 模型」：不同厂商最好，同厂商甚至同一个模型也允许，只是多样性会弱\
     （同一个模型的两位必须各起一个名字，名字就是它在流上的身份）。抽到的两位就同一个问题各自独立作答，各自给一行 `CONCLUSION:`；只有结论冲突时才再开\
     一轮定向第二轮；最后合成器做一次单发调用，产出「共识 / 分歧（含各自成立的前提）\
     / 未决」——它画出选项空间，不替你收敛。一次讨论是 3 次调用（无分歧）或 5 次\
     （有分歧）。合成器沿用 `[routing].synthesizer_model`（没配就用第一个讨论者的模型）；\
     讨论者永远不会被路由到弱模型。\n\n  \
     问句没写在命令行上时：stdin 是终端就问你要一行，是管道就读到结尾（`echo 问题 | \
     fs-agent discuss`）。讨论落在真会话里，`fs-agent sessions show <id>` 可以复盘（TUI \
     退出后转录不留，完整记录在会话日志里）。\n\n  \
     --plain            使用 plain 转录（讨论过程走 stderr，合成产物走 stdout）\n  \
     --tui              使用终端界面（终端上默认就是它）\n  \
     --config PATH      要加载的配置文件\n  \
     --cwd PATH         工作区（默认：当前目录）";

/// `discuss --help`.
pub fn help_discuss() -> (s: String)
    ensures
        s@ == HELP_DISCUSS@,
{
    HELP_DISCUSS.to_string()
}

/// The text of `probe --help`.
pub const HELP_PROBE: &'static str = "fs-agent probe [--config PATH] [--model ID]...\n\n  \
     对每个模型在同一会话里发送两次真实回合，并打印每次的 input/output/cached/miss。\
     不带 --model 时探测每一个 provider 有密钥的模型。";

/// `probe --help`.
pub fn help_probe() -> (s: String)
    ensures
        s@ == HELP_PROBE@,
{
    HELP_PROBE.to_string()
}

/// The text of `prune --help`.
pub const HELP_PRUNE: &'static str = "fs-agent prune [--keep N] [--cwd PATH] [--dry-run]\n\n  \
     删除一个工作区（当前目录，或 --cwd）的会话目录。保留最新的 N 个会话（默认 1：即 \
     --continue 会继续的那个）。一个会话就是一个目录，所以删除是整会话的；--dry-run \
     只列出将删除的内容。除此之外没有任何东西会删除会话。";

/// `prune --help`.
pub fn help_prune() -> (s: String)
    ensures
        s@ == HELP_PRUNE@,
{
    HELP_PRUNE.to_string()
}

/// The text of `sessions --help`.
pub const HELP_SESSIONS: &'static str = "fs-agent sessions <verb> [options]\n\n  \
     ls [--all] [--cwd PATH] [--limit N] [--json]\n      \
     列出本工作区的会话（--all 扫描每个桶），最新的在前。\n  \
     show <id> [--round N] [--speaker X] [--kind K] [--tool T] [--only-error] [--files] [--json]\n      \
     按轮次分组的转录，工具调用与结果合并；--files 改为显示工作区对象视图\n      \
     （它遵守 --round/--speaker/--tool）。\n  \
     replay <id> --speaker X [--round N] [--model ID] [--json]\n      \
     只从事件流重算某一次调用发给 provider 的内容。\n  \
     stats <id> [--model ID] [--json]\n      \
     固定的指标集（token、费用、缺席率、编辑匹配层级的降级）。\n\n  \
     标准输出只放结果，诊断走标准错误。";

/// `sessions --help`.
pub fn help_sessions() -> (s: String)
    ensures
        s@ == HELP_SESSIONS@,
{
    HELP_SESSIONS.to_string()
}

/// The top-level `--help` after its first words, `fs-agent` and the version.
pub const HELP_MAIN_BODY: &'static str = "\n\n  \
         usage: fs-agent [--plain|--tui] [--continue] [--config PATH] [--model ID] [--cwd PATH]\n         \
         fs-agent discuss [--plain|--tui] [--config PATH] [--cwd PATH] \"问题\"\n         \
         fs-agent probe [--config PATH] [--model ID]...\n         \
         fs-agent prune [--keep N] [--cwd PATH] [--dry-run]\n         \
         fs-agent sessions <ls|show|replay|stats> [options]\n\n  \
         不带子命令时，fs-agent 在当前工作区启动一个交互会话：终端上用 TUI 渲染，否则用 \
         plain 转录（--plain / --tui 可强制其一）。--continue 继续本工作区最新的会话。\
         discuss 起一次多角色讨论：两个讨论者各自独立作答，只在结论冲突时开一轮定向第二轮，\
         最后由合成器画出共识 / 分歧 / 未决（见 `fs-agent discuss --help`）。\
         probe 对每个已配置的模型驱动一次真实回合，并在同一会话里再跑一次，然后打印归一化\
         后的用量，以便看到前缀缓存是否命中。prune 手动删除本工作区的会话目录，保留最新的 \
         N 个（默认 1）。sessions 只从会话自己的事件流回答关于一个已结束会话的问题\
         （ls / show / replay / stats；见 `fs-agent sessions --help`）。配置位于 \
         ~/.config/fs-agent/config.toml（支持 XDG）；项目里的 .env 永远不会被加载。";

/// The top-level `--help`, for the version the program was built from.
pub fn help_main_for(version: &str) -> (s: String)
    ensures
        s@ == "fs-agent "@ + version@ + HELP_MAIN_BODY@,
{
    let mut s = String::new();
    push_str(&mut s, "fs-agent ");
    push_str(&mut s, version);
    push_str(&mut s, HELP_MAIN_BODY);
    s
}

/// The prompt `discuss` puts on a terminal when no question was given on the
/// command line.
pub fn question_prompt() -> (s: &'static str)
    ensures
        s@ == "问题> "@,
{
    "问题> "
}

/// The placeholder for a call whose result never arrived (a cancel).
pub fn no_tool_result() -> (s: &'static str)
    ensures
        s@ == "（流上没有结果）"@,
{
    "（流上没有结果）"
}

/// The placeholder for a failed call that carried no message of its own.
pub fn no_message() -> (s: &'static str)
    ensures
        s@ == "（没有消息）"@,
{
    "（没有消息）"
}

/// The marker in front of a streamed reasoning trace.
pub fn reasoning_marker() -> (s: &'static str)
    ensures
        s@ == "[思考] "@,
{
    "[思考] "
}

/// The plain transcript's reasoning label, appended to the speaker prefix.
pub fn reasoning_label() -> (s: &'static str)
    ensures
        s@ == "（思考）"@,
{
    "（思考）"
}

/// A completed message's boundary narration (the body already streamed).
pub fn message_complete() -> (s: &'static str)
    ensures
        s@ == "消息完成"@,
{
    "消息完成"
}

/// A tool call that finished successfully; the caller prints the result.
pub fn tool_completed() -> (s: &'static str)
    ensures
        s@ == "工具完成"@,
{
    "工具完成"
}

/// The **title** row of the plan-mode conflict overlay.
pub fn plan_conflict_title() -> (s: &'static str)
    ensures
        s@ == "计划文件冲突"@,
{
    "计划文件冲突"
}

/// The **title** row of the oversized-paste question.
pub fn paste_title() -> (s: &'static str)
    ensures
        s@ == "粘贴确认"@,
{
    "粘贴确认"
}

/// The **title** row of the clear-draft question.
pub fn clear_draft_title() -> (s: &'static str)
    ensures
        s@ == "清空输入"@,
{
    "清空输入"
}

/// The **body** row of the clear-draft question.
pub fn clear_draft_body() -> (s: &'static str)
    ensures
        s@ == "草稿有多行，Esc 会把它们全部丢掉"@,
{
    "草稿有多行，Esc 会把它们全部丢掉"
}

/// The title of the `Ctrl-D` exit confirmation.
pub fn exit_title() -> (s: &'static str)
    ensures
        s@ == "退出会话"@,
{
    "退出会话"
}

/// The body of the exit confirmation: the transcript on disk survives, the
/// unsent draft does not.
pub fn exit_body() -> (s: &'static str)
    ensures
        s@ == "会话记录会保留；未发送的草稿会丢弃"@,
{
    "会话记录会保留；未发送的草稿会丢弃"
}

/// The marker a multi-select question carries beside its text.
pub fn questionnaire_multi_marker() -> (s: &'static str)
    ensures
        s@ == "（可多选）"@,
{
    "（可多选）"
}

/// The label of the line a typed answer goes on, for a question with no
/// options.
pub fn questionnaire_answer_label() -> (s: &'static str)
    ensures
        s@ == "回答："@,
{
    "回答："
}

/// The label of the line custom text goes on, for a question that offers
/// options.
pub fn questionnaire_custom_label() -> (s: &'static str)
    ensures
        s@ == "自定义："@,
{
    "自定义："
}

/// The plain console's second line for a multi-select question: the optional
/// supplement that goes with the chosen options.
pub fn questionnaire_plain_supplement_prompt() -> (s: &'static str)
    ensures
        s@ == "补充文本（可留空）> "@,
{
    "补充文本（可留空）> "
}

/// The plain console's prompt for a question with no options.
pub fn questionnaire_plain_answer_prompt() -> (s: &'static str)
    ensures
        s@ == "输入回答；回车跳过 > "@,
{
    "输入回答；回车跳过 > "
}

/// The badge shown for an option whose label ends in [`RECOMMENDED_SUFFIX`].
pub fn recommended_badge() -> (s: &'static str)
    ensures
        s@ == "（推荐）"@,
{
    "（推荐）"
}

/// The new-content indicator when nothing has arrived: it is only the way back.
pub fn back_to_bottom() -> (s: &'static str)
    ensures
        s@ == "点此到底"@,
{
    "点此到底"
}

/// `/undo` with nothing to roll back.
pub fn nothing_to_undo() -> (s: &'static str)
    ensures
        s@ == "没有可撤销的修改"@,
{
    "没有可撤销的修改"
}

/// `/plan` succeeded.
pub fn plan_entered() -> (s: &'static str)
    ensures
        s@ == "已进入计划模式"@,
{
    "已进入计划模式"
}

/// `/endplan` succeeded.
pub fn plan_exited() -> (s: &'static str)
    ensures
        s@ == "已退出计划模式"@,
{
    "已退出计划模式"
}

/// `--plain` and `--tui` asked for at once.
pub fn renderers_mutually_exclusive() -> (s: &'static str)
    ensures
        s@ == "--plain 与 --tui 互斥：每个进程只有一个渲染器"@,
{
    "--plain 与 --tui 互斥：每个进程只有一个渲染器"
}

/// `sessions` with no verb.
pub fn sessions_needs_verb() -> (s: &'static str)
    ensures
        s@ == "sessions 需要一个子命令"@,
{
    "sessions 需要一个子命令"
}

/// `sessions show` without an id.
pub fn show_needs_id() -> (s: &'static str)
    ensures
        s@ == "sessions show 需要会话 id"@,
{
    "sessions show 需要会话 id"
}

/// `sessions replay` without an id.
pub fn replay_needs_id() -> (s: &'static str)
    ensures
        s@ == "sessions replay 需要会话 id"@,
{
    "sessions replay 需要会话 id"
}

/// `sessions replay` without `--speaker`.
pub fn replay_needs_speaker() -> (s: &'static str)
    ensures
        s@ == "sessions replay 需要 --speaker"@,
{
    "sessions replay 需要 --speaker"
}

/// `sessions stats` without an id.
pub fn stats_needs_id() -> (s: &'static str)
    ensures
        s@ == "sessions stats 需要会话 id"@,
{
    "sessions stats 需要会话 id"
}

/// The refusal to run as root.
pub fn root_refusal() -> (s: &'static str)
    ensures
        s@ == "拒绝以 root（euid 0）启动：本工具的每一条护栏都假定最坏情况留在你的工作区内，而 root 的一次误判是系统级的。请用你的普通用户运行；没有绕过开关。"@,
{
    "拒绝以 root（euid 0）启动：本工具的每一条护栏都假定最坏情况留在你的工作区内，而 root 的一次误判是系统级的。请用你的普通用户运行；没有绕过开关。"
}

/// Neither `XDG_DATA_HOME` nor `HOME` is set, so a session has nowhere to live.
pub fn startup_no_session_store() -> (s: &'static str)
    ensures
        s@ == "既没有设置 XDG_DATA_HOME 也没有设置 HOME，会话无处存放"@,
{
    "既没有设置 XDG_DATA_HOME 也没有设置 HOME，会话无处存放"
}

/// No configured provider has a key.
pub fn probe_no_key() -> (s: &'static str)
    ensures
        s@ == "没有任何已配置的 provider 带密钥。请导出 MOONSHOT_API_KEY 和/或 DEEPSEEK_API_KEY，或在 config.toml 的 [providers.*] 下设置 `api_key`。"@,
{
    "没有任何已配置的 provider 带密钥。请导出 MOONSHOT_API_KEY 和/或 DEEPSEEK_API_KEY，或在 config.toml 的 [providers.*] 下设置 `api_key`。"
}

/// `sessions ls` found nothing in the bucket.
pub fn no_sessions() -> (s: &'static str)
    ensures
        s@ == "本桶中没有会话"@,
{
    "本桶中没有会话"
}

/// The `ls` ending column for a session that never ended.
pub fn open_session() -> (s: &'static str)
    ensures
        s@ == "未结束"@,
{
    "未结束"
}

/// The pre-round section of `sessions show`.
pub fn session_group() -> (s: &'static str)
    ensures
        s@ == "── 会话 ──"@,
{
    "── 会话 ──"
}

/// The `sessions replay` label for a system message.
pub fn replay_system() -> (s: &'static str)
    ensures
        s@ == "[系统]"@,
{
    "[系统]"
}

/// The `sessions replay` label for an assistant message.
pub fn replay_assistant() -> (s: &'static str)
    ensures
        s@ == "[助手]"@,
{
    "[助手]"
}

/// The prefix before the per-round list.
pub fn stats_rounds_prefix() -> (s: &'static str)
    ensures
        s@ == "；轮次："@,
{
    "；轮次："
}

/// `discuss` with no `[discussion]` table: what to write instead. There is
/// deliberately no default roster.
pub fn discussion_no_roster() -> (s: &'static str)
    ensures
        s@ == "config.toml 里没有 [discussion]：讨论需要两个讨论者，加 `[discussion]` 与 `debaters = [\"kimi-k3\", \"deepseek-v4-pro\"]`（至少两个池子成员；不同厂商最好， 同厂商甚至同一个模型也能跑，只是多样性会弱），见 `fs-agent discuss --help`"@,
{
    "config.toml 里没有 [discussion]：讨论需要两个讨论者，加 `[discussion]` 与 `debaters = [\"kimi-k3\", \"deepseek-v4-pro\"]`（至少两个池子成员；不同厂商最好， 同厂商甚至同一个模型也能跑，只是多样性会弱），见 `fs-agent discuss --help`"
}

/// `discuss` with nothing to ask.
pub fn discuss_needs_question() -> (s: &'static str)
    ensures
        s@ == "discuss 需要一个问句：`fs-agent discuss \"问题\"`，或者把问题从 stdin 传进来"@,
{
    "discuss 需要一个问句：`fs-agent discuss \"问题\"`，或者把问题从 stdin 传进来"
}

/// `/discuss` with no question of its own *and* no question in the session
/// yet.
pub fn discuss_needs_in_session_question() -> (s: &'static str)
    ensures
        s@ == "`/discuss` 没有可讨论的题目：写成 `/discuss 你的问题`，或先在这个会话里问一句，不带题目的 `/discuss` 会拿最后一个问题去讨论"@,
{
    "`/discuss` 没有可讨论的题目：写成 `/discuss 你的问题`，或先在这个会话里问一句，不带题目的 `/discuss` 会拿最后一个问题去讨论"
}

/// The round section line both human painters print.
pub fn round_section(round: u32, mode: RoundMode) -> (s: String)
    ensures
        s@ == "── 第 "@ + decimal(round as nat) + " 轮（"@ + round_mode_text(mode) + "）──"@,
{
    let mut s = String::new();
    push_str(&mut s, "── 第 ");
    push_decimal(&mut s, round as u64);
    push_str(&mut s, " 轮（");
    push_str(&mut s, round_mode(mode));
    push_str(&mut s, "）──");
    s
}

/// The narration that opens one agent turn.
pub fn turn_started(iteration: u32) -> (s: String)
    ensures
        s@ == "回合开始（第 "@ + decimal(iteration as nat) + " 次迭代）"@,
{
    let mut s = String::new();
    push_str(&mut s, "回合开始（第 ");
    push_decimal(&mut s, iteration as u64);
    push_str(&mut s, " 次迭代）");
    s
}

/// The narration that closes one agent turn, with the reason spelled out.
pub fn turn_ended(reason: StopReason) -> (s: String)
    ensures
        s@ == "回合结束："@ + stop_reason_text(reason),
{
    let mut s = String::new();
    push_str(&mut s, "回合结束：");
    push_str(&mut s, stop_reason(reason));
    s
}

/// A discussion round closing.
pub fn round_ended(round: u32, reason: StopReason) -> (s: String)
    ensures
        s@ == "第 "@ + decimal(round as nat) + " 轮结束："@ + stop_reason_text(reason),
{
    let mut s = String::new();
    push_str(&mut s, "第 ");
    push_decimal(&mut s, round as u64);
    push_str(&mut s, " 轮结束：");
    push_str(&mut s, stop_reason(reason));
    s
}

/// Where a discussion can be read back from: the session id is the durable
/// answer.
pub fn discussion_replay(session_id: &str) -> (s: String)
    ensures
        s@ == "会话 "@ + session_id@ + "；复盘：fs-agent sessions show "@ + session_id@,
{
    let mut s = String::new();
    push_str(&mut s, "会话 ");
    push_str(&mut s, session_id);
    push_str(&mut s, "；复盘：fs-agent sessions show ");
    push_str(&mut s, session_id);
    s
}

/// The pair that is debating, for a front end with one field to name it in.
pub fn discussion_pair(first: &str, second: &str) -> (s: String)
    ensures
        s@ == first@ + " × "@ + second@,
{
    let mut s = String::new();
    push_str(&mut s, first);
    push_str(&mut s, " × ");
    push_str(&mut s, second);
    s
}

/// `--debaters` with the wrong shape.
pub fn needs_two_debaters(value: &str) -> (s: String)
    ensures
        s@ == "--debaters 需要两个名字（逗号分隔，例如 `--debaters 保守,激进`），得到 `"@ + value@ + "`"@,
{
    let mut s = String::new();
    push_str(&mut s, "--debaters 需要两个名字（逗号分隔，例如 `--debaters 保守,激进`），得到 `");
    push_str(&mut s, value);
    push_str(&mut s, "`");
    s
}

/// The advisory line for a roster whose two debaters are the same model.
pub fn discussion_same_model(model: &str) -> (s: String)
    ensures
        s@ == "提示：两个讨论者都是 "@ + model@ + "——同一个模型问两遍，剩下的差异只有采样噪声"@,
{
    let mut s = String::new();
    push_str(&mut s, "提示：两个讨论者都是 ");
    push_str(&mut s, model);
    push_str(&mut s, "——同一个模型问两遍，剩下的差异只有采样噪声");
    s
}

/// The advisory line for a roster that is one vendor with two models.
pub fn discussion_one_vendor(first: &str, second: &str) -> (s: String)
    ensures
        s@ == "提示：两个讨论者来自同一厂商（"@ + first@ + " × "@ + second@ + "），多样性比设计假设的弱"@,
{
    let mut s = String::new();
    push_str(&mut s, "提示：两个讨论者来自同一厂商（");
    push_str(&mut s, first);
    push_str(&mut s, " × ");
    push_str(&mut s, second);
    push_str(&mut s, "），多样性比设计假设的弱");
    s
}

/// The whole session closing.
pub fn session_ended(reason: StopReason) -> (s: String)
    ensures
        s@ == "会话结束："@ + stop_reason_text(reason),
{
    let mut s = String::new();
    push_str(&mut s, "会话结束：");
    push_str(&mut s, stop_reason(reason));
    s
}

/// The one-line summary of a tool call; only the verb is Chinese.
pub fn tool_call(tool: &str, args: &str) -> (s: String)
    ensures
        s@ == "调用 "@ + tool@ + "("@ + args@ + ")"@,
{
    let mut s = String::new();
    push_str(&mut s, "调用 ");
    push_str(&mut s, tool);
    push_str(&mut s, "(");
    push_str(&mut s, args);
    push_str(&mut s, ")");
    s
}

/// The pre-hook narration, with its mount point named in Chinese.
pub fn hook(point: &str, outcome: &str) -> (s: String)
    ensures
        s@ == "钩子 "@ + hook_point_text(point@) + "："@ + outcome@,
{
    let mut s = String::new();
    push_str(&mut s, "钩子 ");
    push_str(&mut s, hook_point(point));
    push_str(&mut s, "：");
    push_str(&mut s, outcome);
    s
}

/// A post-hook's feedback, merged into the call it annotates.
pub fn hook_feedback(outcome: &str) -> (s: String)
    ensures
        s@ == "[钩子] "@ + outcome@,
{
    let mut s = String::new();
    push_str(&mut s, "[钩子] ");
    push_str(&mut s, outcome);
    s
}

/// A debater dispatching an executor.
pub fn executor_spawned(executor_id: &str) -> (s: String)
    ensures
        s@ == "派出执行者 "@ + executor_id@,
{
    let mut s = String::new();
    push_str(&mut s, "派出执行者 ");
    push_str(&mut s, executor_id);
    s
}

/// An executor closing, with its reason and summary.
pub fn executor_finished(executor_id: &str, reason: StopReason, summary: &str) -> (s: String)
    ensures
        s@ == "执行者 "@ + executor_id@ + " 收尾："@ + stop_reason_text(reason) + " — "@ + summary@,
{
    let mut s = String::new();
    push_str(&mut s, "执行者 ");
    push_str(&mut s, executor_id);
    push_str(&mut s, " 收尾：");
    push_str(&mut s, stop_reason(reason));
    push_str(&mut s, " — ");
    push_str(&mut s, summary);
    s
}

/// The heading of a divergence block.
pub fn divergence(topic: &str) -> (s: String)
    ensures
        s@ == "分歧："@ + topic@,
{
    let mut s = String::new();
    push_str(&mut s, "分歧：");
    push_str(&mut s, topic);
    s
}

/// A speaker's own error, as narration; the message passes through.
pub fn agent_error(message: &str) -> (s: String)
    ensures
        s@ == "错误："@ + message@,
{
    let mut s = String::new();
    push_str(&mut s, "错误：");
    push_str(&mut s, message);
    s
}

/// The one-line usage summary both human painters print.
pub fn usage_summary(usage: &Usage) -> (s: String)
    ensures
        s@ == "用量 in="@ + decimal(usage.input_tokens as nat) + " out="@ + decimal(usage.output_tokens as nat) + " cached="@ + decimal(usage.cached_tokens as nat) + " miss="@ + decimal(usage.miss_tokens as nat),
{
    let mut s = String::new();
    push_str(&mut s, "用量 in=");
    push_decimal(&mut s, usage.input_tokens as u64);
    push_str(&mut s, " out=");
    push_decimal(&mut s, usage.output_tokens as u64);
    push_str(&mut s, " cached=");
    push_decimal(&mut s, usage.cached_tokens as u64);
    push_str(&mut s, " miss=");
    push_decimal(&mut s, usage.miss_tokens as u64);
    s
}

/// The **body** row of the plan-mode conflict overlay: the path already there.
pub fn plan_conflict_body(path: &str) -> (s: String)
    ensures
        s@ == path@ + " 已存在"@,
{
    let mut s = String::new();
    push_str(&mut s, path);
    push_str(&mut s, " 已存在");
    s
}

/// The **body** row of the oversized-paste question.
pub fn paste_body(chars: usize) -> (s: String)
    ensures
        s@ == "粘贴 "@ + decimal(chars as nat) + " 字符"@,
{
    let mut s = String::new();
    push_str(&mut s, "粘贴 ");
    push_decimal(&mut s, chars as u64);
    push_str(&mut s, " 字符");
    s
}

/// A pinned context injection, with its source named rather than debug-printed.
pub fn context_injected(source: ContextSource) -> (s: String)
    ensures
        s@ == "[上下文注入："@ + context_source_text(source) + "]"@,
{
    let mut s = String::new();
    push_str(&mut s, "[上下文注入：");
    push_str(&mut s, context_source(&source).as_str());
    push_str(&mut s, "]");
    s
}

/// The renderer's own diagnostic line.
pub fn diagnostic(message: &str) -> (s: String)
    ensures
        s@ == "[诊断] "@ + message@,
{
    let mut s = String::new();
    push_str(&mut s, "[诊断] ");
    push_str(&mut s, message);
    s
}

/// The renderer fell behind the channel and lost events.
pub fn renderer_dropped(dropped: u64) -> (s: String)
    ensures
        s@ == "渲染器丢弃了 "@ + decimal(dropped as nat) + " 个事件"@,
{
    let mut s = String::new();
    push_str(&mut s, "渲染器丢弃了 ");
    push_decimal(&mut s, dropped as u64);
    push_str(&mut s, " 个事件");
    s
}

/// The indicator that says how much arrived while the viewport was scrolled
/// away, and that the block is the way back.
pub fn new_content(rows: usize) -> (s: String)
    ensures
        s@ == "↓ "@ + decimal(rows as nat) + " 行新内容 · 点此到底"@,
{
    let mut s = String::new();
    push_str(&mut s, "↓ ");
    push_decimal(&mut s, rows as u64);
    push_str(&mut s, " 行新内容 · 点此到底");
    s
}

/// Everything a terminal smaller than the minimum shows.
pub fn too_small(width: u16, height: u16) -> (s: String)
    ensures
        s@ == "终端太小：至少 "@ + decimal(width as nat) + "×"@ + decimal(height as nat),
{
    let mut s = String::new();
    push_str(&mut s, "终端太小：至少 ");
    push_decimal(&mut s, width as u64);
    push_str(&mut s, "×");
    push_decimal(&mut s, height as u64);
    s
}

/// The header's mode field.
pub fn mode_field(mode: Mode) -> (s: String)
    ensures
        s@ == "模式 "@ + mode_label_text(mode),
{
    let mut s = String::new();
    push_str(&mut s, "模式 ");
    push_str(&mut s, mode_label(mode));
    s
}

/// The user loaded a skill by name, to run right away.
pub fn skill_loaded(name: &str) -> (s: String)
    ensures
        s@ == "已加载技能 "@ + name@,
{
    let mut s = String::new();
    push_str(&mut s, "已加载技能 ");
    push_str(&mut s, name);
    s
}

/// A bare `/<skill>`: the body is loaded **and the turn starts**.
pub fn skill_started(name: &str) -> (s: String)
    ensures
        s@ == "已加载技能 "@ + name@ + "，按技能正文开始"@,
{
    let mut s = String::new();
    push_str(&mut s, "已加载技能 ");
    push_str(&mut s, name);
    push_str(&mut s, "，按技能正文开始");
    s
}

/// An argument the command does not recognize.
pub fn unknown_argument(arg: &str) -> (s: String)
    ensures
        s@ == "未知参数 "@ + arg@,
{
    let mut s = String::new();
    push_str(&mut s, "未知参数 ");
    push_str(&mut s, arg);
    s
}

/// A flag that was given without the value it needs.
pub fn needs_value(flag: &str) -> (s: String)
    ensures
        s@ == flag@ + " 需要一个值"@,
{
    let mut s = String::new();
    push_str(&mut s, flag);
    push_str(&mut s, " 需要一个值");
    s
}

/// A flag that needs a number but got something else.
pub fn needs_number(flag: &str, value: &str) -> (s: String)
    ensures
        s@ == flag@ + " 需要一个数字，得到 "@ + value@,
{
    let mut s = String::new();
    push_str(&mut s, flag);
    push_str(&mut s, " 需要一个数字，得到 ");
    push_str(&mut s, value);
    s
}

/// A flag that needs a path.
pub fn needs_path(flag: &str) -> (s: String)
    ensures
        s@ == flag@ + " 需要一个路径"@,
{
    let mut s = String::new();
    push_str(&mut s, flag);
    push_str(&mut s, " 需要一个路径");
    s
}

/// A flag that needs a model id.
pub fn needs_model(flag: &str) -> (s: String)
    ensures
        s@ == flag@ + " 需要一个模型 id"@,
{
    let mut s = String::new();
    push_str(&mut s, flag);
    push_str(&mut s, " 需要一个模型 id");
    s
}

/// More positional arguments than the command takes.
pub fn extra_argument(arg: &str) -> (s: String)
    ensures
        s@ == "多余的参数 "@ + arg@,
{
    let mut s = String::new();
    push_str(&mut s, "多余的参数 ");
    push_str(&mut s, arg);
    s
}

/// A `sessions` verb that does not exist.
pub fn unknown_sessions_verb(verb: &str) -> (s: String)
    ensures
        s@ == "未知的 sessions 子命令 "@ + verb@,
{
    let mut s = String::new();
    push_str(&mut s, "未知的 sessions 子命令 ");
    push_str(&mut s, verb);
    s
}

/// A session id that no bucket holds; the id and the search label stay
/// verbatim.
pub fn no_session(id: &str, where_: &str) -> (s: String)
    ensures
        s@ == where_@ + " 中没有会话 "@ + id@,
{
    let mut s = String::new();
    push_str(&mut s, where_);
    push_str(&mut s, " 中没有会话 ");
    push_str(&mut s, id);
    s
}

/// The label for the bucket `sessions` searched.
pub fn session_search_label(cwd: &str) -> (s: String)
    ensures
        s@ == cwd@ + "（或任何其他桶）"@,
{
    let mut s = String::new();
    push_str(&mut s, cwd);
    push_str(&mut s, "（或任何其他桶）");
    s
}

/// A stored file that could not be read; path and detail stay verbatim.
pub fn cannot_read(path: &str, detail: &str) -> (s: String)
    ensures
        s@ == "无法读取 "@ + path@ + "："@ + detail@,
{
    let mut s = String::new();
    push_str(&mut s, "无法读取 ");
    push_str(&mut s, path);
    push_str(&mut s, "：");
    push_str(&mut s, detail);
    s
}

/// The async runtime could not be built.
pub fn startup_runtime(detail: &str) -> (s: String)
    ensures
        s@ == "无法启动异步运行时："@ + detail@,
{
    let mut s = String::new();
    push_str(&mut s, "无法启动异步运行时：");
    push_str(&mut s, detail);
    s
}

/// `prune --dry-run` naming a session it would remove.
pub fn prune_would_remove(id: &str, dir: &str) -> (s: String)
    ensures
        s@ == "将删除 "@ + id@ + "（"@ + dir@ + "）"@,
{
    let mut s = String::new();
    push_str(&mut s, "将删除 ");
    push_str(&mut s, id);
    push_str(&mut s, "（");
    push_str(&mut s, dir);
    push_str(&mut s, "）");
    s
}

/// `prune` naming a session it removed.
pub fn prune_removed(id: &str, dir: &str) -> (s: String)
    ensures
        s@ == "已删除 "@ + id@ + "（"@ + dir@ + "）"@,
{
    let mut s = String::new();
    push_str(&mut s, "已删除 ");
    push_str(&mut s, id);
    push_str(&mut s, "（");
    push_str(&mut s, dir);
    push_str(&mut s, "）");
    s
}

/// Configuration could not be read.
pub fn startup_config(detail: &str) -> (s: String)
    ensures
        s@ == "无法读取配置："@ + detail@,
{
    let mut s = String::new();
    push_str(&mut s, "无法读取配置：");
    push_str(&mut s, detail);
    s
}

/// The session store could not be read.
pub fn startup_store_read(detail: &str) -> (s: String)
    ensures
        s@ == "无法读取会话存储："@ + detail@,
{
    let mut s = String::new();
    push_str(&mut s, "无法读取会话存储：");
    push_str(&mut s, detail);
    s
}

/// The session store could not be created in.
pub fn startup_store_create(detail: &str) -> (s: String)
    ensures
        s@ == "无法创建会话："@ + detail@,
{
    let mut s = String::new();
    push_str(&mut s, "无法创建会话：");
    push_str(&mut s, detail);
    s
}

/// The session store could not be pruned.
pub fn startup_store_prune(detail: &str) -> (s: String)
    ensures
        s@ == "无法清理会话存储："@ + detail@,
{
    let mut s = String::new();
    push_str(&mut s, "无法清理会话存储：");
    push_str(&mut s, detail);
    s
}

/// There is no session in `dir` to continue.
pub fn startup_no_session_to_continue(dir: &str) -> (s: String)
    ensures
        s@ == dir@ + " 中没有可继续的会话"@,
{
    let mut s = String::new();
    push_str(&mut s, dir);
    push_str(&mut s, " 中没有可继续的会话");
    s
}

/// The current directory could not be determined.
pub fn startup_cwd(detail: &str) -> (s: String)
    ensures
        s@ == "无法确定当前目录："@ + detail@,
{
    let mut s = String::new();
    push_str(&mut s, "无法确定当前目录：");
    push_str(&mut s, detail);
    s
}

/// A session-level failure: the code explained, the detail verbatim.
pub fn session_error(code: &str, detail: &str) -> (s: String)
    ensures
        s@ == "[会话错误："@ + session_error_code_text(code@) + "] "@ + detail@,
{
    let mut s = String::new();
    push_str(&mut s, "[会话错误：");
    push_str(&mut s, session_error_code(code));
    push_str(&mut s, "] ");
    push_str(&mut s, detail);
    s
}

/// A single round's label in the `--files` view.
pub fn round_label(round: u32) -> (s: String)
    ensures
        s@ == "第 "@ + decimal(round as nat) + " 轮"@,
{
    let mut s = String::new();
    push_str(&mut s, "第 ");
    push_decimal(&mut s, round as u64);
    push_str(&mut s, " 轮");
    s
}

/// A failed tool call's reason, as narration.
pub fn tool_error(error: &str) -> (s: String)
    ensures
        s@ == "错误："@ + error@,
{
    let mut s = String::new();
    push_str(&mut s, "错误：");
    push_str(&mut s, error);
    s
}

/// The `sessions replay` label for a tool result.
pub fn replay_tool(tool_call_id: &str) -> (s: String)
    ensures
        s@ == "[工具 "@ + tool_call_id@ + "]"@,
{
    let mut s = String::new();
    push_str(&mut s, "[工具 ");
    push_str(&mut s, tool_call_id);
    push_str(&mut s, "]");
    s
}

/// A tool call inside a replayed assistant message; the arguments stay
/// verbatim.
pub fn replay_tool_call(name: &str, arguments: &str) -> (s: String)
    ensures
        s@ == "→ 调用 "@ + name@ + "("@ + arguments@ + ")"@,
{
    let mut s = String::new();
    push_str(&mut s, "→ 调用 ");
    push_str(&mut s, name);
    push_str(&mut s, "(");
    push_str(&mut s, arguments);
    push_str(&mut s, ")");
    s
}

/// The session-wide totals line.
pub fn stats_session(tokens: u64, calls: usize, messages: usize, rounds: usize, cost: &str) -> (s: String)
    ensures
        s@ == "会话："@ + decimal(tokens as nat) + " token，"@ + decimal(calls as nat) + " 次调用，"@ + decimal(messages as nat) + " 条消息，"@ + decimal(rounds as nat) + " 轮"@ + cost@,
{
    let mut s = String::new();
    push_str(&mut s, "会话：");
    push_decimal(&mut s, tokens as u64);
    push_str(&mut s, " token，");
    push_decimal(&mut s, calls as u64);
    push_str(&mut s, " 次调用，");
    push_decimal(&mut s, messages as u64);
    push_str(&mut s, " 条消息，");
    push_decimal(&mut s, rounds as u64);
    push_str(&mut s, " 轮");
    push_str(&mut s, cost);
    s
}

/// The unpriced tail, naming the missing price entry.
pub fn stats_no_cost(model: &str) -> (s: String)
    ensures
        s@ == "，无价格（没有 [pricing."@ + model@ + "] 条目）"@,
{
    let mut s = String::new();
    push_str(&mut s, "，无价格（没有 [pricing.");
    push_str(&mut s, model);
    push_str(&mut s, "] 条目）");
    s
}

/// One speaker's spend row.
pub fn stats_speaker(speaker: &str, tokens: u64, calls: usize, hit: &str, cost: &str) -> (s: String)
    ensures
        s@ == "  "@ + speaker@ + " "@ + decimal(tokens as nat) + " token  "@ + decimal(calls as nat) + " 次调用  命中 "@ + hit@ + cost@,
{
    let mut s = String::new();
    push_str(&mut s, "  ");
    push_str(&mut s, speaker);
    push_str(&mut s, " ");
    push_decimal(&mut s, tokens as u64);
    push_str(&mut s, " token  ");
    push_decimal(&mut s, calls as u64);
    push_str(&mut s, " 次调用  命中 ");
    push_str(&mut s, hit);
    push_str(&mut s, cost);
    s
}

/// The absence picture across the debate rounds.
pub fn stats_absence(one_sided: usize, rounds: usize, rate: &str) -> (s: String)
    ensures
        s@ == "缺席："@ + decimal(rounds as nat) + " 轮辩论中有 "@ + decimal(one_sided as nat) + " 轮只有一方作答"@ + rate@,
{
    let mut s = String::new();
    push_str(&mut s, "缺席：");
    push_decimal(&mut s, rounds as u64);
    push_str(&mut s, " 轮辩论中有 ");
    push_decimal(&mut s, one_sided as u64);
    push_str(&mut s, " 轮只有一方作答");
    push_str(&mut s, rate);
    s
}

/// One speaker's absence count.
pub fn stats_absent(name: &str, count: usize) -> (s: String)
    ensures
        s@ == "  缺席："@ + name@ + " ×"@ + decimal(count as nat),
{
    let mut s = String::new();
    push_str(&mut s, "  缺席：");
    push_str(&mut s, name);
    push_str(&mut s, " ×");
    push_decimal(&mut s, count as u64);
    s
}

/// The edit ladder's outcome.
pub fn stats_edits(succeeded: usize, failed: usize) -> (s: String)
    ensures
        s@ == "编辑："@ + decimal(succeeded as nat) + " 次成功，"@ + decimal(failed as nat) + " 次匹配失败"@,
{
    let mut s = String::new();
    push_str(&mut s, "编辑：");
    push_decimal(&mut s, succeeded as u64);
    push_str(&mut s, " 次成功，");
    push_decimal(&mut s, failed as u64);
    push_str(&mut s, " 次匹配失败");
    s
}

/// One match-ladder downgrade level.
pub fn stats_match_level(name: &str, count: usize) -> (s: String)
    ensures
        s@ == "  匹配层级 "@ + name@ + "："@ + decimal(count as nat),
{
    let mut s = String::new();
    push_str(&mut s, "  匹配层级 ");
    push_str(&mut s, name);
    push_str(&mut s, "：");
    push_decimal(&mut s, count as u64);
    s
}

/// The two guardrails' refusal counts.
pub fn stats_guards(read_before_write: usize, invalidated: usize) -> (s: String)
    ensures
        s@ == "护栏：写前必读 "@ + decimal(read_before_write as nat) + "，读集失效 "@ + decimal(invalidated as nat),
{
    let mut s = String::new();
    push_str(&mut s, "护栏：写前必读 ");
    push_decimal(&mut s, read_before_write as u64);
    push_str(&mut s, "，读集失效 ");
    push_decimal(&mut s, invalidated as u64);
    s
}

/// Executors dispatched and closed.
pub fn stats_executors(spawned: usize, finished: usize) -> (s: String)
    ensures
        s@ == "执行者：派出 "@ + decimal(spawned as nat) + "，收尾 "@ + decimal(finished as nat),
{
    let mut s = String::new();
    push_str(&mut s, "执行者：派出 ");
    push_decimal(&mut s, spawned as u64);
    push_str(&mut s, "，收尾 ");
    push_decimal(&mut s, finished as u64);
    s
}

/// One executor stopping reason.
pub fn stats_executor_reason(name: &str, count: usize) -> (s: String)
    ensures
        s@ == "  收尾 "@ + name@ + "："@ + decimal(count as nat),
{
    let mut s = String::new();
    push_str(&mut s, "  收尾 ");
    push_str(&mut s, name);
    push_str(&mut s, "：");
    push_decimal(&mut s, count as u64);
    s
}

/// What the mounted hooks did.
pub fn stats_hooks(executed: usize, pre: usize, post: usize, feedback: usize, failed: usize) -> (s: String)
    ensures
        s@ == "钩子：执行 "@ + decimal(executed as nat) + "（前 "@ + decimal(pre as nat) + "，后 "@ + decimal(post as nat) + "），反馈 "@ + decimal(feedback as nat) + "，失败 "@ + decimal(failed as nat),
{
    let mut s = String::new();
    push_str(&mut s, "钩子：执行 ");
    push_decimal(&mut s, executed as u64);
    push_str(&mut s, "（前 ");
    push_decimal(&mut s, pre as u64);
    push_str(&mut s, "，后 ");
    push_decimal(&mut s, post as u64);
    push_str(&mut s, "），反馈 ");
    push_decimal(&mut s, feedback as u64);
    push_str(&mut s, "，失败 ");
    push_decimal(&mut s, failed as u64);
    s
}

/// Permission questions asked, with an already-assembled decisions tail.
pub fn stats_permissions(asked: usize, decided: &str) -> (s: String)
    ensures
        s@ == "权限：询问 "@ + decimal(asked as nat) + decided@,
{
    let mut s = String::new();
    push_str(&mut s, "权限：询问 ");
    push_decimal(&mut s, asked as u64);
    push_str(&mut s, decided);
    s
}

/// One decision in the permissions tail.
pub fn stats_decision(count: usize, name: &str) -> (s: String)
    ensures
        s@ == decimal(count as nat) + " "@ + name@,
{
    let mut s = String::new();
    push_decimal(&mut s, count as u64);
    push_str(&mut s, " ");
    push_str(&mut s, name);
    s
}

/// The divergence rate across the debate rounds.
pub fn stats_divergences(divergences: usize, rounds: usize, rate: &str) -> (s: String)
    ensures
        s@ == "分歧："@ + decimal(divergences as nat) + "/"@ + decimal(rounds as nat) + rate@,
{
    let mut s = String::new();
    push_str(&mut s, "分歧：");
    push_decimal(&mut s, divergences as u64);
    push_str(&mut s, "/");
    push_decimal(&mut s, rounds as u64);
    push_str(&mut s, rate);
    s
}

/// One round in the per-round list; `ended` is already formatted, or empty.
pub fn stats_round(round: u32, mode: RoundMode, calls: usize, ended: &str) -> (s: String)
    ensures
        s@ == "#"@ + decimal(round as nat) + " "@ + round_mode_text(mode) + " "@ + decimal(calls as nat) + " 次调用"@ + ended@,
{
    let mut s = String::new();
    push_str(&mut s, "#");
    push_decimal(&mut s, round as u64);
    push_str(&mut s, " ");
    push_str(&mut s, round_mode(mode));
    push_str(&mut s, " ");
    push_decimal(&mut s, calls as u64);
    push_str(&mut s, " 次调用");
    push_str(&mut s, ended);
    s
}

/// A round's closing reason in the per-round list.
pub fn stats_round_ended(reason: StopReason) -> (s: String)
    ensures
        s@ == "，结束于 "@ + stop_reason_text(reason),
{
    let mut s = String::new();
    push_str(&mut s, "，结束于 ");
    push_str(&mut s, stop_reason(reason));
    s
}

/// One stopping reason count.
pub fn stats_stop(name: &str, count: usize) -> (s: String)
    ensures
        s@ == "  停止 "@ + name@ + "："@ + decimal(count as nat),
{
    let mut s = String::new();
    push_str(&mut s, "  停止 ");
    push_str(&mut s, name);
    push_str(&mut s, "：");
    push_decimal(&mut s, count as u64);
    s
}

/// The plain console's plan-conflict input line.
pub fn plan_conflict_prompt(path: &str) -> (s: String)
    ensures
        s@ == path@ + " 已存在："@ + choices_text_of(plan_choices_seq()) + " "@,
{
    let mut s = String::new();
    push_str(&mut s, path);
    push_str(&mut s, " 已存在：");
    push_str(&mut s, choices_text(&plan_choices()).as_str());
    push_str(&mut s, " ");
    s
}

/// The plain console's permission input line, which also has room for the
/// reason the question was put.
pub fn permission_prompt_with_context(tool_name: &str, args: &str, reason: &str) -> (s: String)
    ensures
        s@ == permission_asked_text(Some(tool_name@), args@) + "？原因："@ + reason@ + " "@ + choices_text_of(permission_choices_seq()) + " "@,
{
    let mut s = String::new();
    push_str(&mut s, permission_asked(Some(tool_name), args).as_str());
    push_str(&mut s, "？原因：");
    push_str(&mut s, reason);
    push_str(&mut s, " ");
    push_str(&mut s, choices_text(&permission_choices()).as_str());
    push_str(&mut s, " ");
    s
}

/// The footer that pages a questionnaire: `2 / 3`.
pub fn questionnaire_progress(index: usize, total: usize) -> (s: String)
    requires
        index < usize::MAX,
    ensures
        s@ == decimal((index + 1) as nat) + " / "@ + decimal(total as nat),
{
    let mut s = String::new();
    push_decimal(&mut s, (index + 1) as u64);
    push_str(&mut s, " / ");
    push_decimal(&mut s, total as u64);
    s
}

/// The questionnaire's footer: which question is on screen, and what the
/// keys do.
pub fn questionnaire_status(index: usize, total: usize, ready: bool) -> (s: String)
    requires
        index < usize::MAX,
    ensures
        s@ == decimal((index + 1) as nat) + " / "@ + decimal(total as nat) + " · "@ + questionnaire_hint_text(ready),
{
    let mut s = String::new();
    push_decimal(&mut s, (index + 1) as u64);
    push_str(&mut s, " / ");
    push_decimal(&mut s, total as u64);
    push_str(&mut s, " · ");
    push_str(&mut s, questionnaire_hint(ready));
    s
}

/// The cache split of one call's input.
pub fn cache_pair(cached: u64, miss: u64) -> (s: String)
    ensures
        s@ == thousands_text(cached as nat) + " / "@ + thousands_text(miss as nat),
{
    let mut s = String::new();
    push_str(&mut s, thousands(cached).as_str());
    push_str(&mut s, " / ");
    push_str(&mut s, thousands(miss).as_str());
    s
}

} // verus!
