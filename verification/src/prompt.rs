//! The prompt that puts one change unit and its rules to the model.

use vstd::prelude::*;
use crate::diff::{Patch, PatchView};

verus! {

/// What the prompt says before the rules: the task, what each field of a
/// finding is to hold, and how the lines of the change are numbered.
pub const PROMPT_TASK: &'static str = "これから提示する Git パッチに対して以下のルールに違反している可能性がある箇所を見つけ、検証しましょう。

以下のレビューで言及されたルールについてのみ検証しなさい。
このパッチから確実にわかることのみについて言及しなさい。このパッチの範囲外のことを推測で指摘することは避けてください。

locations には指摘箇所の行番号を記載しなさい。
quotation には指摘箇所のコードの重要部分を一部抜粋しなさい。
reference には指摘の根拠となるルールを簡単に引用しなさい。
suspiciousReason には指摘箇所が疑わしい理由を記載しなさい。
noProblemReason には指摘箇所が問題ない理由を記載しなさい。
revaluation には suspiciousReason と noProblemReason を踏まえて指摘が適切か再評価しなさい。指摘がパッチから読み取れない推測に基づいている場合は、指摘は適切でないと判断しなさい。
message には revaluation を踏まえて指摘内容を記載しなさい。
kind では
指摘がいかなる場合も適切ならば kind を \"error\" にしなさい。
指摘が場合によっては適切であるかもしれない場合は kind を \"warning\" にしなさい。
指摘が適切でないことが分かった場合は kind を \"cancel\" に変更しなさい。

ソースコードの左端の番号は行番号を表しています。
また「+」で始まる行は追加された行、「-」で始まる行は削除された行を表しています。
適切に指摘箇所の行番号を指定しなさい。

";

/// What the prompt says between the rules and the change: the form of the
/// answer, with an example.
pub const PROMPT_ANSWER_FORM: &'static str = "

返答は JSON のみを返すようにしなさい。
json は以下の形式に従いなさい。

{
    messages: {
        \"location\": {
            \"start_line\": number
            \"end_line\": number
        },
        \"quotation\": string,
        \"reference\": string,
        \"suspiciousReason\": string,
        \"noProblemReason\": string,
        \"reevalution\": string,
        \"message\": string,
        \"kind\": \"error\" | \"warning\" | \"cancel\"
    }[]
}

例)

{
    messages: [
        {
            location: { start_line: 10, end_line: 10 },
            quotation: \"const huge = XXXX();\",
            reference: \"XXX の代わりに YYY を使うというルールがあります。\"
            suspiciousReason: \"XXX は YYY に変更するべきだが、変更されていない。\"
            noProblemReason: \"XXX は YYY に変更する必要がない。\"
            reevalution: \"実際に XXX が使用されているので、YYY に変更する必要があり、コードは誤っているので、この指摘は適切である。\",
            message: \"XXX の箇所は YYY に変更してください。\",
            kind: \"error\"
        },
        {
            location: { start_line: 20, end_line: 30 },
            quotation: \"const huge = ZZZZ();\",
            reference: \"ZZZ をつけるというルールがあります。\"
            suspiciousReason: \"ZZZ をつけるというルールが有る。\"
            noProblemReason: \"ZZZ はついている。\"
            reevalution: \"実際に ZZZ はついているので、コードは正しく、この指摘は不適切である。\"
            message: \"ZZZ がついているので問題ありません。\",
            kind: \"cancel\"
        },
    ]
}

以下が Git のパッチです。

";

/// What the prompt ends with.
pub const PROMPT_END: &'static str = "\n\n";

/// The prompt for a change unit and the rules that apply to it. It holds
/// nothing but its fixed text, the rules and the unit.
pub open spec fn prompt_text(rules: Seq<char>, unit: PatchView) -> Seq<char> {
    PROMPT_TASK@ + rules + PROMPT_ANSWER_FORM@ + Patch::labelled(unit) + PROMPT_END@
}

/// The prompt for `patch` under `rules`; none where `rules` is empty.
pub fn build_prompt(rules: &str, patch: &Patch) -> (prompt: Option<String>)
    ensures
        rules@.len() == 0 ==> prompt is None,
        rules@.len() > 0 ==> (prompt matches Some(text) && text@ == prompt_text(rules@, patch@)),
{
    if rules.unicode_len() == 0 {
        return None;
    }
    let mut text = String::from_str(PROMPT_TASK);
    text.append(rules);
    text.append(PROMPT_ANSWER_FORM);
    text.append(patch.content_with_path().as_str());
    text.append(PROMPT_END);
    Some(text)
}

/// Equal rules and equal change units give the same prompt, character for character.
pub proof fn lemma_prompt_is_determined(
    rules: Seq<char>,
    unit: PatchView,
    other_rules: Seq<char>,
    other_unit: PatchView,
)
    requires
        rules == other_rules,
        unit == other_unit,
    ensures
        prompt_text(rules, unit) == prompt_text(other_rules, other_unit),
{
}

} // verus!
