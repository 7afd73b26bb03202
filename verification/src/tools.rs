//! The tools that the model may ask for: what is told to the backend about
//! each, and how a request for one is answered.

use crate::frame::{read_text, text_member};
use crate::json::{Json, JsonView, Member, MemberView};
use crate::message::{ToolCall, ToolCallView};
use crate::text::{
    chars_of, find, first_match, lemma_first_match_is_match, matches_at, same_text, trim, trimmed,
};
use vstd::prelude::*;
use vstd::string::*;

verus! {

/// How a tool is run.
#[derive(Clone, Copy, Debug, PartialEq, Eq, Structural)]
pub enum Executor {
    /// Answers with the weather at a place.
    Weather,
    /// Evaluates a formula.
    Calculator,
    /// Answers with the present time.
    DateTime,
    /// Run by the caller: the library hands the request out and takes the
    /// result back.
    External,
}

/// A tool as a mathematical value.
pub struct ToolView {
    pub name: Seq<char>,
    pub description: Seq<char>,
    pub parameters: JsonView,
    pub executor: Executor,
}

/// A tool: the name by which the model asks for it, what is told to the
/// model about it and about its parameters, and how it is run.
#[derive(Debug, PartialEq, Eq)]
pub struct Tool {
    pub name: String,
    pub description: String,
    pub parameters: Json,
    pub executor: Executor,
}

impl View for Tool {
    type V = ToolView;

    open spec fn view(&self) -> ToolView {
        ToolView {
            name: self.name@,
            description: self.description@,
            parameters: self.parameters@,
            executor: self.executor,
        }
    }
}

impl Clone for Tool {
    /// A copy that holds the same tool.
    fn clone(&self) -> (copy: Tool)
        ensures
            copy@ == self@,
    {
        Tool {
            name: self.name.clone(),
            description: self.description.clone(),
            parameters: self.parameters.clone(),
            executor: self.executor,
        }
    }
}

/// The tools that `tools` hold, in order.
pub open spec fn tool_views(tools: Seq<Tool>) -> Seq<ToolView> {
    tools.map_values(|tool: Tool| tool@)
}

/// A copy of `tools` that holds the same tools.
pub fn clone_tools(tools: &Vec<Tool>) -> (copies: Vec<Tool>)
    ensures
        tool_views(copies@) == tool_views(tools@),
{
    let mut copies: Vec<Tool> = Vec::new();
    let mut at: usize = 0;
    while at < tools.len()
        invariant
            at <= tools.len(),
            copies.len() == at,
            forall|i: int| 0 <= i < at ==> copies[i]@ == tools[i]@,
        decreases tools.len() - at,
    {
        copies.push(tools[at].clone());
        at = at + 1;
    }
    assert(tool_views(copies@) == tool_views(tools@));
    copies
}

/// The schema of an object with one string parameter `name`, which must be
/// given.
pub open spec fn one_string_parameter(name: Seq<char>, description: Seq<char>) -> JsonView {
    JsonView::Object(
        seq![
            MemberView { key: "type"@, value: JsonView::Text("object"@) },
            MemberView {
                key: "properties"@,
                value: JsonView::Object(
                    seq![
                        MemberView {
                            key: name,
                            value: JsonView::Object(
                                seq![
                                    MemberView { key: "type"@, value: JsonView::Text("string"@) },
                                    MemberView {
                                        key: "description"@,
                                        value: JsonView::Text(description),
                                    },
                                ],
                            ),
                        },
                    ],
                ),
            },
            MemberView { key: "required"@, value: JsonView::Array(seq![JsonView::Text(name)]) },
        ],
    )
}

/// The schema of an object without parameters.
pub open spec fn no_parameters() -> JsonView {
    JsonView::Object(
        seq![
            MemberView { key: "type"@, value: JsonView::Text("object"@) },
            MemberView { key: "properties"@, value: JsonView::Object(Seq::empty()) },
        ],
    )
}

/// Builds the schema of an object with one string parameter.
pub fn string_parameter_schema(name: &str, description: &str) -> (schema: Json)
    ensures
        schema@ == one_string_parameter(name@, description@),
{
    let mut inner: Vec<Member> = Vec::new();
    inner.push(Member::new("type", Json::text("string")));
    inner.push(Member::new("description", Json::text(description)));
    let inner = Json::object(inner);
    assert(inner@->Object_0 == seq![
        MemberView { key: "type"@, value: JsonView::Text("string"@) },
        MemberView { key: "description"@, value: JsonView::Text(description@) },
    ]);
    let mut properties: Vec<Member> = Vec::new();
    properties.push(Member::new(name, inner));
    let properties = Json::object(properties);
    assert(properties@->Object_0 == seq![MemberView { key: name@, value: inner@ }]);
    let mut required: Vec<Json> = Vec::new();
    required.push(Json::text(name));
    let required = Json::array(required);
    assert(required@->Array_0 == seq![JsonView::Text(name@)]);
    let mut outer: Vec<Member> = Vec::new();
    outer.push(Member::new("type", Json::text("object")));
    outer.push(Member::new("properties", properties));
    outer.push(Member::new("required", required));
    let schema = Json::object(outer);
    assert(schema@->Object_0 == seq![
        MemberView { key: "type"@, value: JsonView::Text("object"@) },
        MemberView { key: "properties"@, value: properties@ },
        MemberView { key: "required"@, value: required@ },
    ]);
    schema
}

/// Builds the schema of an object without parameters.
pub fn empty_schema() -> (schema: Json)
    ensures
        schema@ == no_parameters(),
{
    let properties = Json::object(Vec::new());
    assert(properties@->Object_0 == Seq::<MemberView>::empty());
    let mut outer: Vec<Member> = Vec::new();
    outer.push(Member::new("type", Json::text("object")));
    outer.push(Member::new("properties", properties));
    let schema = Json::object(outer);
    assert(schema@->Object_0 == seq![
        MemberView { key: "type"@, value: JsonView::Text("object"@) },
        MemberView { key: "properties"@, value: properties@ },
    ]);
    schema
}

/// The name of the weather tool.
pub const WEATHER_TOOL: &'static str = "get_weather";

/// The name of the tool for simple sums and products.
pub const CALCULATE_TOOL: &'static str = "calculate";

/// The name of the tool that tells the time.
pub const DATETIME_TOOL: &'static str = "get_datetime_now";

/// The name of the tool that evaluates a formula.
pub const CALCULATOR_TOOL: &'static str = "calculator";

/// The weather tool, as it is told to the backend.
pub open spec fn weather_tool() -> ToolView {
    ToolView {
        name: WEATHER_TOOL@,
        description: "Get current weather information for a location"@,
        parameters: one_string_parameter(
            "location"@,
            "The city or location to get weather for"@,
        ),
        executor: Executor::Weather,
    }
}

/// The tool for simple sums and products, as it is told to the backend.
pub open spec fn calculate_tool() -> ToolView {
    ToolView {
        name: CALCULATE_TOOL@,
        description: "Perform basic mathematical calculations"@,
        parameters: one_string_parameter(
            "expression"@,
            "Mathematical expression to evaluate"@,
        ),
        executor: Executor::External,
    }
}

/// The tool that tells the time, as it is told to the backend.
pub open spec fn datetime_tool() -> ToolView {
    ToolView {
        name: DATETIME_TOOL@,
        description: "現在の時刻を取得します。"@,
        parameters: no_parameters(),
        executor: Executor::DateTime,
    }
}

/// The tool that evaluates a formula, as it is told to the backend.
pub open spec fn calculator_tool() -> ToolView {
    ToolView {
        name: CALCULATOR_TOOL@,
        description: "計算時の使用が義務付けられています。与えられた計算式を計算します。"@,
        parameters: one_string_parameter(
            "formula"@,
            "計算式、例: \"1+sum(2,3)*abs(4-5)/6^2\""@,
        ),
        executor: Executor::Calculator,
    }
}

impl Tool {
    /// The weather tool.
    pub fn weather() -> (tool: Tool)
        ensures
            tool@ == weather_tool(),
    {
        Tool {
            name: String::from_str(WEATHER_TOOL),
            description: String::from_str("Get current weather information for a location"),
            parameters: string_parameter_schema(
                "location",
                "The city or location to get weather for",
            ),
            executor: Executor::Weather,
        }
    }

    /// The tool for simple sums and products, which the caller runs.
    pub fn calculate() -> (tool: Tool)
        ensures
            tool@ == calculate_tool(),
    {
        Tool {
            name: String::from_str(CALCULATE_TOOL),
            description: String::from_str("Perform basic mathematical calculations"),
            parameters: string_parameter_schema(
                "expression",
                "Mathematical expression to evaluate",
            ),
            executor: Executor::External,
        }
    }

    /// The tool that tells the time.
    pub fn datetime() -> (tool: Tool)
        ensures
            tool@ == datetime_tool(),
    {
        Tool {
            name: String::from_str(DATETIME_TOOL),
            description: String::from_str("現在の時刻を取得します。"),
            parameters: empty_schema(),
            executor: Executor::DateTime,
        }
    }

    /// The tool that evaluates a formula.
    pub fn calculator() -> (tool: Tool)
        ensures
            tool@ == calculator_tool(),
    {
        Tool {
            name: String::from_str(CALCULATOR_TOOL),
            description: String::from_str(
                "計算時の使用が義務付けられています。与えられた計算式を計算します。",
            ),
            parameters: string_parameter_schema(
                "formula",
                "計算式、例: \"1+sum(2,3)*abs(4-5)/6^2\"",
            ),
            executor: Executor::Calculator,
        }
    }
}

/// What the weather tool answers to `arguments`: the weather at the place
/// that the string `location` names, or at a place unknown.
pub open spec fn weather_text(arguments: JsonView) -> Seq<char> {
    "Weather in "@ + (match text_member(arguments, "location"@) {
        Some(place) => place,
        None => "Unknown"@,
    }) + ": Sunny, 22°C"@
}

/// Answers a request for the weather.
pub fn get_weather(arguments: &Json) -> (reply: String)
    ensures
        reply@ == weather_text(arguments@),
{
    let place = match read_text(arguments, "location") {
        Some(place) => place,
        None => String::from_str("Unknown"),
    };
    String::from_str("Weather in ").concat(place.as_str()).concat(": Sunny, 22°C")
}

/// Evaluates a formula: the value as text, or the evaluator's message where
/// it refuses the formula.
///
/// Trusted: calls `fasteval::Parser::parse`, `ExpressionI::from` and
/// `Evaler::eval` with an empty namespace, and `to_string` on what comes
/// back. Nothing is claimed of the outcome: it is no function of the formula
/// alone. The evaluator refuses a formula that needs more room than its
/// allocator gave, and it computes with the floating-point functions of the
/// machine. A formula that calls `print` also writes to the standard error
/// stream, which no contract shows; should that write fail, the call does
/// not return.
#[verifier::external_body]
fn evaluate(formula: &str) -> (outcome: Result<String, String>) {
    let mut slab = fasteval::Slab::new();
    match fasteval::Parser::new().parse(formula, &mut slab.ps) {
        Err(fault) => Err(fault.to_string()),
        Ok(parsed) => match fasteval::Evaler::eval(
            parsed.from(&slab.ps),
            &slab,
            &mut fasteval::EmptyNamespace,
        ) {
            Ok(value) => Ok(value.to_string()),
            Err(fault) => Err(fault.to_string()),
        },
    }
}

/// Evaluates `formula`: the value as text, or the evaluator's message where
/// it refuses the formula. Which of the two, and what text, is for the
/// evaluator to say; what the tool makes of either is `calculator_reply`.
pub fn calculator(formula: &str) -> (outcome: Result<String, String>) {
    evaluate(formula)
}

/// What the calculator answers where no formula is given.
pub const MISSING_FORMULA: &'static str = "missing argument: formula";

/// The text that an evaluation which ended in `outcome` gives: the value,
/// or the message of the failure.
pub open spec fn outcome_text(outcome: Result<Seq<char>, Seq<char>>) -> Seq<char> {
    match outcome {
        Ok(value) => value,
        Err(message) => message,
    }
}

/// What the calculator tool answers to `arguments` when the evaluation of
/// their string `formula` ends in `outcome`: the value, or the evaluator's
/// message; and the note that no formula is given where there is none.
pub open spec fn calculator_text(
    arguments: JsonView,
    outcome: Result<Seq<char>, Seq<char>>,
) -> Seq<char> {
    match text_member(arguments, "formula"@) {
        Some(_) => outcome_text(outcome),
        None => MISSING_FORMULA@,
    }
}

/// Whether `reply` is what the calculator tool answers to `arguments`,
/// whatever the evaluation comes to.
pub open spec fn calculator_answers(arguments: JsonView, reply: Seq<char>) -> bool {
    exists|outcome: Result<Seq<char>, Seq<char>>|
        reply == #[trigger] calculator_text(arguments, outcome)
}

/// The texts that `outcome` holds.
pub open spec fn outcome_view(outcome: Result<String, String>) -> Result<Seq<char>, Seq<char>> {
    match outcome {
        Ok(value) => Ok(value@),
        Err(message) => Err(message@),
    }
}

/// The content of the tool turn for an evaluation that ended in `outcome`:
/// the value, or the message of the failure, which the model is to see.
pub fn calculator_reply(outcome: Result<String, String>) -> (reply: String)
    ensures
        reply@ == outcome_text(outcome_view(outcome)),
{
    match outcome {
        Ok(value) => value,
        Err(message) => message,
    }
}

/// Answers a request to evaluate the string `formula` of `arguments`:
/// with the note that no formula is given where there is none, and else
/// with whatever the evaluation comes to.
pub fn run_calculator(arguments: &Json) -> (reply: String)
    ensures
        text_member(arguments@, "formula"@) is None ==> reply@ == MISSING_FORMULA@,
        calculator_answers(arguments@, reply@),
{
    match read_text(arguments, "formula") {
        Some(formula) => {
            let outcome = calculator(formula.as_str());
            let ghost ended = outcome_view(outcome);
            let reply = calculator_reply(outcome);
            assert(reply@ == calculator_text(arguments@, ended));
            reply
        },
        None => {
            let reply = String::from_str(MISSING_FORMULA);
            assert(reply@ == calculator_text(arguments@, Err(Seq::empty())));
            reply
        },
    }
}

/// The present local time as text.
///
/// Trusted: calls `chrono::Local::now` and `to_string` on it. The text
/// changes from call to call; the contract claims only that it is not
/// empty, since what is written holds a space between the time and the
/// offset from UTC.
#[verifier::external_body]
fn local_time_text() -> (now: String)
    ensures
        now@.len() > 0,
{
    chrono::Local::now().to_string()
}

/// What the time tool answers when the time is `now`.
pub open spec fn datetime_text(now: Seq<char>) -> Seq<char> {
    "現在時刻: "@ + now
}

/// The answer of the time tool for the time `now`.
pub fn datetime_reply(now: &str) -> (reply: String)
    ensures
        reply@ == datetime_text(now@),
{
    String::from_str("現在時刻: ").concat(now)
}

/// Whether `reply` is what the time tool answers at some time: the label
/// and, behind it, a time that is not empty.
pub open spec fn tells_time(reply: Seq<char>) -> bool {
    exists|now: Seq<char>| now.len() > 0 && reply == #[trigger] datetime_text(now)
}

/// Answers a request for the present time.
pub fn get_datetime_now() -> (reply: String)
    ensures
        tells_time(reply@),
{
    let now = local_time_text();
    datetime_reply(now.as_str())
}

/// What a simple calculation asks for, as a mathematical value.
pub enum CalculationView {
    Sum(Seq<char>, Seq<char>),
    Product(Seq<char>, Seq<char>),
    Invalid,
    Unsupported,
}

/// What a simple calculation asks for.
#[derive(Debug, PartialEq, Eq)]
pub enum Calculation {
    /// The sum of the two numbers that the texts write.
    Sum(String, String),
    /// The product of the two numbers that the texts write.
    Product(String, String),
    /// Nothing that can be computed: more than two operands.
    Invalid,
    /// Nothing that the tool computes: neither a sum nor a product.
    Unsupported,
}

impl View for Calculation {
    type V = CalculationView;

    open spec fn view(&self) -> CalculationView {
        match self {
            Calculation::Sum(left, right) => CalculationView::Sum(left@, right@),
            Calculation::Product(left, right) => CalculationView::Product(left@, right@),
            Calculation::Invalid => CalculationView::Invalid,
            Calculation::Unsupported => CalculationView::Unsupported,
        }
    }
}

/// What is answered to a calculation with more than two operands.
pub const INVALID_EXPRESSION: &'static str = "Invalid expression";

/// What is answered to a calculation that is neither a sum nor a product.
pub const NOT_SUPPORTED: &'static str = "Calculation not supported";

/// The two operands of `expression` around its only sign `sign`, each
/// without the white space around it; nothing where the sign stands more
/// than once or not at all.
pub open spec fn operands(expression: Seq<char>, sign: char) -> Option<(Seq<char>, Seq<char>)> {
    match first_match(expression, seq![sign], 0) {
        Some(at) => if first_match(expression, seq![sign], at + 1) is None {
            Some(
                (
                    trimmed(expression.subrange(0, at)),
                    trimmed(expression.subrange(at + 1, expression.len() as int)),
                ),
            )
        } else {
            None
        },
        None => None,
    }
}

/// Whether `sign` stands in `expression`.
pub open spec fn has_sign(expression: Seq<char>, sign: char) -> bool {
    first_match(expression, seq![sign], 0) is Some
}

/// What `expression` asks for: where it holds a plus sign, the sum of what
/// stands on its two sides, if it holds only one; else, where it holds a
/// times sign, the product in the same way; else nothing that the tool
/// computes.
pub open spec fn calculation_of(expression: Seq<char>) -> CalculationView {
    if has_sign(expression, '+') {
        match operands(expression, '+') {
            Some(pair) => CalculationView::Sum(pair.0, pair.1),
            None => CalculationView::Invalid,
        }
    } else if has_sign(expression, '*') {
        match operands(expression, '*') {
            Some(pair) => CalculationView::Product(pair.0, pair.1),
            None => CalculationView::Invalid,
        }
    } else {
        CalculationView::Unsupported
    }
}

/// The expression that `arguments` hold: the string `expression`, or zero
/// where there is none.
pub open spec fn expression_of(arguments: JsonView) -> Seq<char> {
    match text_member(arguments, "expression"@) {
        Some(expression) => expression,
        None => "0"@,
    }
}

/// What stands around the sign `sign` of `expression`.
enum Split {
    /// The sign does not stand in the expression.
    Absent,
    /// The sign stands in it more than once.
    Many,
    /// The sign stands in it once, between these two.
    Pair(String, String),
}

/// Splits `expression` at its sign `sign`.
fn split_at_sign(expression: &str, sign: char) -> (split: Split)
    ensures
        split is Absent <==> !has_sign(expression@, sign),
        split is Many <==> has_sign(expression@, sign) && operands(expression@, sign) is None,
        split matches Split::Pair(left, right) ==> operands(expression@, sign) == Some(
            (left@, right@),
        ),
{
    let chars = chars_of(expression);
    let mut pattern: Vec<char> = Vec::new();
    pattern.push(sign);
    assert(pattern@ == seq![sign]);
    match find(&chars, &pattern, 0) {
        None => Split::Absent,
        Some(at) => {
            proof {
                lemma_first_match_is_match(chars@, pattern@, 0, at as int);
                assert(matches_at(chars@, pattern@, at as int));
            }
            assert(at + 1 <= chars.len());
            match find(&chars, &pattern, at + 1) {
                Some(_) => Split::Many,
                None => {
                    let left = trim(expression.substring_char(0, at));
                    let right = trim(expression.substring_char(at + 1, chars.len()));
                    Split::Pair(left, right)
                },
            }
        },
    }
}

/// Decides what `expression` asks for.
pub fn plan_calculation(expression: &str) -> (plan: Calculation)
    ensures
        plan@ == calculation_of(expression@),
{
    match split_at_sign(expression, '+') {
        Split::Pair(left, right) => Calculation::Sum(left, right),
        Split::Many => Calculation::Invalid,
        Split::Absent => match split_at_sign(expression, '*') {
            Split::Pair(left, right) => Calculation::Product(left, right),
            Split::Many => Calculation::Invalid,
            Split::Absent => Calculation::Unsupported,
        },
    }
}

/// Decides what the request with `arguments` asks the tool for simple sums
/// and products to compute.
pub fn calculation_for(arguments: &Json) -> (plan: Calculation)
    ensures
        plan@ == calculation_of(expression_of(arguments@)),
{
    match read_text(arguments, "expression") {
        Some(expression) => plan_calculation(expression.as_str()),
        None => plan_calculation("0"),
    }
}

/// What is answered to a simple calculation whose value, where it has one,
/// is written as `value`: the value of a sum or a product, and else the note
/// that says why there is none.
pub open spec fn calculation_text(plan: CalculationView, value: Seq<char>) -> Seq<char> {
    match plan {
        CalculationView::Sum(_, _) => value,
        CalculationView::Product(_, _) => value,
        CalculationView::Invalid => INVALID_EXPRESSION@,
        CalculationView::Unsupported => NOT_SUPPORTED@,
    }
}

/// The answer to a simple calculation: `value`, which the caller computed,
/// for a sum or a product, and else the note that says why there is no
/// value.
pub fn calculation_reply(plan: &Calculation, value: &str) -> (reply: String)
    ensures
        reply@ == calculation_text(plan@, value@),
{
    match plan {
        Calculation::Sum(_, _) => String::from_str(value),
        Calculation::Product(_, _) => String::from_str(value),
        Calculation::Invalid => String::from_str(INVALID_EXPRESSION),
        Calculation::Unsupported => String::from_str(NOT_SUPPORTED),
    }
}

/// What is answered for a tool that the caller cannot run.
pub const NOT_IMPLEMENTED: &'static str = "Tool not implemented";

/// What the caller is to do for a request that is left to it, as a
/// mathematical value.
pub enum CallerTaskView {
    Calculate(CalculationView),
    NotImplemented,
}

/// What the caller is to do for a request that is left to it.
#[derive(Debug, PartialEq, Eq)]
pub enum CallerTask {
    /// Compute this simple sum or product.
    Calculate(Calculation),
    /// Nothing: the caller has no such tool.
    NotImplemented,
}

impl View for CallerTask {
    type V = CallerTaskView;

    open spec fn view(&self) -> CallerTaskView {
        match self {
            CallerTask::Calculate(plan) => CallerTaskView::Calculate(plan@),
            CallerTask::NotImplemented => CallerTaskView::NotImplemented,
        }
    }
}

/// What the request `call` asks of the caller: the calculation that its
/// arguments hold where it names the tool for simple sums and products, and
/// nothing that the caller can do where it names any other tool.
pub open spec fn caller_task_of(call: ToolCallView) -> CallerTaskView {
    if call.name == CALCULATE_TOOL@ {
        CallerTaskView::Calculate(calculation_of(expression_of(call.arguments)))
    } else {
        CallerTaskView::NotImplemented
    }
}

/// Decides what the caller is to do for a request that is left to it.
pub fn caller_task(call: &ToolCall) -> (task: CallerTask)
    ensures
        task@ == caller_task_of(call@),
{
    if same_text(call.name.as_str(), CALCULATE_TOOL) {
        CallerTask::Calculate(calculation_for(&call.arguments))
    } else {
        CallerTask::NotImplemented
    }
}

/// What the caller's work on `task` comes to, as the content of the tool
/// turn: the answer to the calculation, or the note that there is no such
/// tool.
pub open spec fn caller_text(task: CallerTaskView, value: Seq<char>) -> Seq<char> {
    match task {
        CallerTaskView::Calculate(plan) => calculation_text(plan, value),
        CallerTaskView::NotImplemented => NOT_IMPLEMENTED@,
    }
}

/// The content of the tool turn for the caller's work on `task`, where
/// `value` is the value that the caller computed, if the task has one.
pub fn caller_reply(task: &CallerTask, value: &str) -> (reply: String)
    ensures
        reply@ == caller_text(task@, value@),
{
    match task {
        CallerTask::Calculate(plan) => calculation_reply(plan, value),
        CallerTask::NotImplemented => String::from_str(NOT_IMPLEMENTED),
    }
}

/// What a request for a tool comes to, as a mathematical value.
pub enum ToolOutcomeView {
    /// The content of the tool turn.
    Reply(Seq<char>),
    /// The caller runs the tool.
    External,
}

/// What a request for a tool comes to.
#[derive(Debug, PartialEq, Eq)]
pub enum ToolOutcome {
    /// The content of the tool turn.
    Reply(String),
    /// The caller runs the tool and hands the result back.
    External,
}

impl View for ToolOutcome {
    type V = ToolOutcomeView;

    open spec fn view(&self) -> ToolOutcomeView {
        match self {
            ToolOutcome::Reply(text) => ToolOutcomeView::Reply(text@),
            ToolOutcome::External => ToolOutcomeView::External,
        }
    }
}

/// The first tool of `tools` whose name is `name`.
pub open spec fn lookup(tools: Seq<ToolView>, name: Seq<char>) -> Option<ToolView>
    decreases tools.len(),
{
    if tools.len() == 0 {
        None
    } else if tools[0].name == name {
        Some(tools[0])
    } else {
        lookup(tools.skip(1), name)
    }
}

/// Skipping tools of another name does not change what is found.
pub proof fn lemma_lookup_skip(tools: Seq<ToolView>, name: Seq<char>, n: int)
    requires
        0 <= n <= tools.len(),
        forall|j: int| 0 <= j < n ==> tools[j].name != name,
    ensures
        lookup(tools, name) == lookup(tools.skip(n), name),
    decreases n,
{
    if n > 0 {
        lemma_lookup_skip(tools, name, n - 1);
        let rest = tools.skip(n - 1);
        assert(rest[0] == tools[n - 1]);
        assert(rest.skip(1) == tools.skip(n));
    } else {
        assert(tools.skip(0) == tools);
    }
}

/// What is put in the tool turn for a tool that is not there.
pub open spec fn not_found_text(name: Seq<char>) -> Seq<char> {
    "Tool not found: "@ + name
}

/// Whether `outcome` answers the request `call` given the tools `tools`: a
/// request for a tool that is not there is answered by the note that says
/// so, a request for a tool that the library runs by what that tool
/// answers, and a request for any other tool is left to the caller.
pub open spec fn answers(tools: Seq<ToolView>, call: ToolCallView, outcome: ToolOutcomeView) -> bool {
    match lookup(tools, call.name) {
        None => outcome == ToolOutcomeView::Reply(not_found_text(call.name)),
        Some(tool) => match tool.executor {
            Executor::Weather => outcome == ToolOutcomeView::Reply(weather_text(call.arguments)),
            Executor::Calculator => outcome matches ToolOutcomeView::Reply(reply)
                && calculator_answers(call.arguments, reply),
            Executor::DateTime => outcome matches ToolOutcomeView::Reply(reply) && tells_time(
                reply,
            ),
            Executor::External => outcome is External,
        },
    }
}

/// The tools that the model may ask for, by name.
pub struct ToolRegistry {
    tools: Vec<Tool>,
}

impl View for ToolRegistry {
    type V = Seq<ToolView>;

    closed spec fn view(&self) -> Seq<ToolView> {
        tool_views(self.tools@)
    }
}

impl ToolRegistry {
    /// A registry without tools.
    pub fn new() -> (registry: ToolRegistry)
        ensures
            registry@ == Seq::<ToolView>::empty(),
    {
        let registry = ToolRegistry { tools: Vec::new() };
        assert(registry@ == Seq::<ToolView>::empty());
        registry
    }

    /// A registry of `tools`, in their order.
    pub fn with_tools(tools: Vec<Tool>) -> (registry: ToolRegistry)
        ensures
            registry@ == tool_views(tools@),
    {
        ToolRegistry { tools }
    }

    /// Adds `tool` behind the tools that are there. Where a tool of that
    /// name is there already, requests by that name still go to the
    /// earlier one.
    pub fn register(&mut self, tool: Tool)
        ensures
            final(self)@ == old(self)@.push(tool@),
    {
        self.tools.push(tool);
        assert(self@ == old(self)@.push(tool@));
    }

    /// How many tools are there.
    pub fn len(&self) -> (count: usize)
        ensures
            count == self@.len(),
    {
        self.tools.len()
    }

    /// The tools as they are told to the backend, in the order in which
    /// they were added.
    pub fn definitions(&self) -> (tools: Vec<Tool>)
        ensures
            tool_views(tools@) == self@,
    {
        clone_tools(&self.tools)
    }

    /// The tool that answers to `name`.
    pub fn find(&self, name: &str) -> (found: Option<&Tool>)
        ensures
            found is Some <==> lookup(self@, name@) is Some,
            found matches Some(tool) ==> lookup(self@, name@) == Some(tool@),
    {
        let ghost all = self@;
        let mut at: usize = 0;
        while at < self.tools.len()
            invariant
                at <= self.tools.len(),
                all == tool_views(self.tools@),
                forall|j: int| 0 <= j < at ==> all[j].name != name@,
            decreases self.tools.len() - at,
        {
            if same_text(self.tools[at].name.as_str(), name) {
                proof {
                    lemma_lookup_skip(all, name@, at as int);
                    assert(all.skip(at as int)[0] == all[at as int]);
                }
                return Some(&self.tools[at]);
            }
            at = at + 1;
        }
        proof {
            lemma_lookup_skip(all, name@, all.len() as int);
        }
        None
    }

    /// Answers the request `call`: never fails. A tool that is not there,
    /// and a tool that fails, give the content of a tool turn that says so.
    pub fn execute(&self, call: &ToolCall) -> (outcome: ToolOutcome)
        ensures
            answers(self@, call@, outcome@),
    {
        match self.find(call.name.as_str()) {
            None => ToolOutcome::Reply(String::from_str("Tool not found: ").concat(call.name.as_str())),
            Some(tool) => match tool.executor {
                Executor::Weather => ToolOutcome::Reply(get_weather(&call.arguments)),
                Executor::Calculator => ToolOutcome::Reply(run_calculator(&call.arguments)),
                Executor::DateTime => ToolOutcome::Reply(get_datetime_now()),
                Executor::External => ToolOutcome::External,
            },
        }
    }
}

} // verus!
