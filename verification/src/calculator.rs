//! The calculator: a provider that evaluates the query as an arithmetic
//! expression and shows the value.

use crate::{LaunchError, LauncherListItem, LauncherPlugin};
use vstd::prelude::*;

verus! {

/// The longest expression, in bytes, that is evaluated. The evaluator goes
/// one level deeper on the stack for each bracket, each sign and each
/// operator, and a level costs it some four thousand bytes: on a thread with
/// the usual two mebibytes of stack it runs out below six hundred levels of
/// signs, powers or sums. An expression of this length leaves it half of such
/// a stack; a longer query is not handed to it.
pub const MAX_EXPRESSION_BYTES: usize = 256;

/// What `mathengine::evaluate_expression` makes of an expression that raises
/// nothing to a power: the value as it is displayed, or `None` where the text
/// is no expression that it can evaluate.
pub uninterp spec fn evaluated(expression: Seq<char>) -> Option<Seq<char>>;

/// Whether an expression raises to a power. The last digits of a power are
/// the machine's, so the value of such an expression does not belong to its
/// text alone.
pub open spec fn has_power(expression: Seq<char>) -> bool {
    expression.contains('^')
}

/// The text of an optional string.
pub open spec fn text_of(s: Option<String>) -> Option<Seq<char>> {
    match s {
        Some(t) => Some(t@),
        None => None,
    }
}

/// Whether a query is short enough to be evaluated.
pub open spec fn evaluable(query: Seq<char>) -> bool {
    vstd::utf8::encode_utf8(query).len() <= MAX_EXPRESSION_BYTES
}

/// Whether a query is not evaluated at all: the empty query, and one that is
/// too long.
pub open spec fn refused(query: Seq<char>) -> bool {
    query.len() == 0 || !evaluable(query)
}

/// What the calculator shows for a query without a power: the value of the
/// expression, where the query is one; nothing for the empty query, for a
/// query that is too long, and for one that is no expression.
pub open spec fn shown_value(query: Seq<char>) -> Option<Seq<char>> {
    if query.len() == 0 || !evaluable(query) {
        None
    } else {
        evaluated(query)
    }
}

/// Evaluates an expression by `mathengine::evaluate_expression` and formats
/// the value as the crate displays it. The claim is that the outcome depends
/// on the text alone where the expression raises nothing to a power: the
/// evaluator then only reads numbers, adds, subtracts, multiplies, divides
/// and converts units. Of an expression with a power nothing is claimed.
/// Expressions beyond the length limit are left out: the evaluator's depth
/// on the stack grows with them.
#[verifier::external_body]
fn evaluate_text(expression: &str) -> (shown: Option<String>)
    requires
        evaluable(expression@),
    ensures
        !has_power(expression@) ==> text_of(shown) == evaluated(expression@),
{
    match mathengine::evaluate_expression(expression) {
        Ok(value) => Some(format!("{}", value)),
        Err(_) => None,
    }
}

/// The value of an expression, as an item of the result list.
#[derive(Debug, Clone)]
pub struct CalculatorResult {
    value: String,
}

impl CalculatorResult {
    /// The value as it is shown.
    pub closed spec fn shown(&self) -> Seq<char> {
        self.value@
    }

    /// The value as it is shown.
    pub fn value(&self) -> (r: &String)
        ensures
            r@ == self.shown(),
    {
        &self.value
    }
}

impl LauncherListItem for CalculatorResult {
    open spec fn has_id(&self, id: Seq<char>) -> bool {
        id == "calculator_result"@
    }

    /// The title is the value.
    open spec fn has_title(&self, title: Seq<char>) -> bool {
        title == self.shown()
    }

    open spec fn has_description(&self, description: Option<Seq<char>>) -> bool {
        description.is_none()
    }

    open spec fn has_icon(&self, icon: Seq<char>) -> bool {
        icon == "accessories-calculator"@
    }

    /// There is nothing to launch: the value has been shown.
    open spec fn launches(&self, outcome: Result<(), LaunchError>) -> bool {
        outcome.is_ok()
    }

    fn id(&self) -> (r: String) {
        "calculator_result".to_owned()
    }

    fn title(&self) -> (r: String) {
        self.value.clone()
    }

    fn description(&self) -> (r: Option<String>) {
        None
    }

    fn icon(&self) -> (r: String) {
        "accessories-calculator".to_owned()
    }

    fn execute(&self) -> (r: Result<(), LaunchError>) {
        Ok(())
    }
}

/// The calculator.
pub struct CalculatorPlugin;

impl CalculatorPlugin {
    pub fn new() -> (r: Self) {
        CalculatorPlugin
    }

    /// The value of a query, if it is an expression. The empty query and a
    /// query that is too long have none.
    pub fn evaluate(&self, query: &str) -> (value: Option<String>)
        ensures
            refused(query@) ==> value.is_none(),
            !has_power(query@) ==> text_of(value) == shown_value(query@),
    {
        if query.is_empty() || query.as_bytes().len() > MAX_EXPRESSION_BYTES {
            None
        } else {
            evaluate_text(query)
        }
    }

    /// The results that show a value: one item for a value, and none where
    /// there is no value.
    pub fn items_for(value: Option<String>) -> (items: Vec<CalculatorResult>)
        ensures
            match value {
                Some(v) => items@.len() == 1 && items@[0].shown() == v@,
                None => items@.len() == 0,
            },
    {
        let mut items: Vec<CalculatorResult> = Vec::new();
        match value {
            Some(value) => {
                items.push(CalculatorResult { value });
            },
            None => {},
        }
        items
    }

    /// The results for a query: the one value of the expression, or nothing.
    pub fn results(&self, query: &str) -> (items: Vec<CalculatorResult>)
        ensures
            items@.len() <= 1,
            refused(query@) ==> items@.len() == 0,
            !has_power(query@) ==> match shown_value(query@) {
                Some(value) => items@.len() == 1 && items@[0].shown() == value,
                None => items@.len() == 0,
            },
    {
        Self::items_for(self.evaluate(query))
    }

    /// The items of the result list that show a value: one item for a value,
    /// and none where there is no value. The item is a `CalculatorResult`
    /// that shows the value.
    pub fn list_for(value: Option<String>) -> (items: Vec<Box<dyn LauncherListItem>>)
        ensures
            items@.len() == if value.is_some() {
                1int
            } else {
                0int
            },
    {
        let mut items: Vec<Box<dyn LauncherListItem>> = Vec::new();
        let ghost empty = items@;
        proof {
            crate::seqs::lemma_empty::<Box<dyn LauncherListItem>>();
        }
        match value {
            Some(value) => {
                let item: Box<dyn LauncherListItem> = Box::new(CalculatorResult { value });
                items.push(item);
                proof {
                    crate::seqs::lemma_push(empty, item);
                }
            },
            None => {},
        }
        items
    }
}

impl LauncherPlugin for CalculatorPlugin {
    open spec fn has_priority(&self, priority: i32) -> bool {
        priority == 1100
    }

    open spec fn has_prefix(&self, prefix: Option<Seq<char>>) -> bool {
        prefix == Some("calc"@)
    }

    /// The calculator takes part in every query.
    open spec fn is_by_prefix_only(&self, reserved: bool) -> bool {
        !reserved
    }

    fn init(&self) {
    }

    fn name(&self) -> (r: String)
        ensures
            r@ == "calculator"@,
    {
        "calculator".to_owned()
    }

    fn priority(&self) -> (r: i32) {
        1100
    }

    fn description(&self) -> (r: Option<String>)
        ensures
            text_of(r) == Some(
                "Run different calculations and get the result in the launcher list"@,
            ),
    {
        Some("Run different calculations and get the result in the launcher list".to_owned())
    }

    fn prefix(&self) -> (r: Option<String>) {
        Some("calc".to_owned())
    }

    fn by_prefix_only(&self) -> (r: bool) {
        false
    }

    /// The calculator shows nothing while there is no query.
    fn default_list(&self) -> (items: Vec<Box<dyn LauncherListItem>>)
        ensures
            items@.len() == 0,
    {
        proof {
            crate::seqs::lemma_empty::<Box<dyn LauncherListItem>>();
        }
        Vec::new()
    }

    /// The value of the query, if it is an expression: one item, which
    /// shows the value as `results` tells it.
    fn filter(&self, query: &str) -> (items: Vec<Box<dyn LauncherListItem>>)
        ensures
            items@.len() <= 1,
            refused(query@) ==> items@.len() == 0,
            !has_power(query@) ==> items@.len() == if shown_value(query@).is_some() {
                1int
            } else {
                0int
            },
    {
        Self::list_for(self.evaluate(query))
    }
}

/// A calculator.
pub fn new() -> (r: CalculatorPlugin) {
    CalculatorPlugin::new()
}

} // verus!
