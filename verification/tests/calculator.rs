use waycast::calculator::{CalculatorPlugin, MAX_EXPRESSION_BYTES};
use waycast::{LauncherListItem, LauncherPlugin};

#[test]
fn the_calculator_evaluates_expressions() {
    let calc = CalculatorPlugin::new();
    assert_eq!(calc.evaluate("2+2"), Some("4".to_string()));
    assert_eq!(calc.evaluate("2 + 3 * 4"), Some("14".to_string()));
    assert_eq!(calc.evaluate("(1 + 2) * 3"), Some("9".to_string()));
    assert_eq!(calc.evaluate("1m + 50cm"), Some("1.5m".to_string()));
    assert_eq!(calc.evaluate("100cm to meters"), Some("1m".to_string()));
}

#[test]
fn what_is_no_expression_gives_nothing() {
    let calc = CalculatorPlugin::new();
    assert_eq!(calc.evaluate("firefox"), None);
    assert_eq!(calc.evaluate("2 +"), None);
    assert_eq!(calc.evaluate("1 / 0"), None);
    assert_eq!(calc.evaluate("   "), None);
    assert_eq!(calc.evaluate(""), None);
    assert!(calc.results("hello").is_empty());
    assert!(calc.filter("hello").is_empty());
}

#[test]
fn the_result_is_one_item_that_shows_the_value() {
    let calc = waycast::calculator::new();
    let items = calc.filter("2+2");
    assert_eq!(items.len(), 1);
    assert_eq!(items[0].title(), "4");
    assert_eq!(items[0].id(), "calculator_result");
    assert_eq!(items[0].icon(), "accessories-calculator");
    assert_eq!(items[0].description(), None);
    assert_eq!(items[0].execute(), Ok(()));
    let results = calc.results("2+2");
    assert_eq!(results.len(), 1);
    assert_eq!(results[0].value(), "4");
}

#[test]
fn the_calculator_has_no_default_list() {
    let calc = CalculatorPlugin::new();
    assert!(calc.default_list().is_empty());
    assert!(calc.filter("").is_empty());
}

#[test]
fn what_the_calculator_declares() {
    let calc = CalculatorPlugin::new();
    assert_eq!(calc.name(), "calculator");
    assert_eq!(calc.priority(), 1100);
    assert_eq!(calc.prefix(), Some("calc".to_string()));
    assert!(!calc.by_prefix_only());
    assert_eq!(
        calc.description(),
        Some("Run different calculations and get the result in the launcher list".to_string())
    );
}

#[test]
fn an_expression_beyond_the_length_limit_is_not_evaluated() {
    let calc = CalculatorPlugin::new();
    let mut at_limit = "1".to_string();
    while at_limit.len() + 2 <= MAX_EXPRESSION_BYTES {
        at_limit.push_str("+1");
    }
    assert!(at_limit.len() <= MAX_EXPRESSION_BYTES);
    assert!(calc.evaluate(&at_limit).is_some());
    let beyond = format!("{}+1", at_limit);
    assert!(beyond.len() > MAX_EXPRESSION_BYTES);
    assert_eq!(calc.evaluate(&beyond), None);
    let nested = "(".repeat(100_000);
    assert_eq!(calc.evaluate(&nested), None);
}

#[test]
fn deep_nesting_within_the_limit_is_evaluated() {
    let calc = CalculatorPlugin::new();
    let depth = (MAX_EXPRESSION_BYTES - 1) / 2;
    let nested = format!("{}7{}", "(".repeat(depth), ")".repeat(depth));
    assert!(nested.len() <= MAX_EXPRESSION_BYTES);
    assert_eq!(calc.evaluate(&nested), Some("7".to_string()));
    let open = "(".repeat(MAX_EXPRESSION_BYTES);
    assert_eq!(calc.evaluate(&open), None);
    let signs = format!("{}7", "-".repeat(MAX_EXPRESSION_BYTES - 1));
    assert_eq!(calc.evaluate(&signs), Some("-7".to_string()));
    let powers = format!("{}1", "1^".repeat((MAX_EXPRESSION_BYTES - 1) / 2));
    assert_eq!(calc.evaluate(&powers), Some("1".to_string()));
    assert_eq!(MAX_EXPRESSION_BYTES, 256);
}

#[test]
fn odd_queries_are_answered_one_way_or_the_other() {
    let calc = CalculatorPlugin::new();
    let mut letters: Vec<char> = (32u8..127u8).map(|b| b as char).collect();
    letters.extend(['\t', '\n', 'é', '°', '√', '１', '\u{0}', '\u{a0}']);
    let mut answered = 0;
    for a in &letters {
        for b in &letters {
            let text: String = [*a, *b].iter().collect();
            if calc.evaluate(&text).is_some() {
                answered += 1;
            }
            let longer: String = ['1', *a, *b, '2'].iter().collect();
            if calc.evaluate(&longer).is_some() {
                answered += 1;
            }
        }
    }
    assert!(answered > 0);
    for text in [
        "1e400", "1..2", ".5", "5.", "1 to", "to to", "1m to", "1m to 1m", "1C to F", "1F to K",
        "1m to C", "1xyz to m", "0/0", "1/0m", "2^0.5", "(-8)^(1/3)", "1m * 1m", "1 / 1m",
        "999999999999999999999999999999", "1m + 1C", "- - 1", "()", ")(", "1 (2)", "٣+٣",
    ] {
        let _ = calc.evaluate(text);
    }
}

#[test]
fn a_value_is_shown_as_one_item() {
    let items = CalculatorPlugin::items_for(Some("42".to_string()));
    assert_eq!(items.len(), 1);
    assert_eq!(items[0].value(), "42");
    assert!(CalculatorPlugin::items_for(None).is_empty());
    let listed = CalculatorPlugin::list_for(Some("42".to_string()));
    assert_eq!(listed.len(), 1);
    assert_eq!(listed[0].title(), "42");
    assert_eq!(listed[0].id(), "calculator_result");
    assert!(CalculatorPlugin::list_for(None).is_empty());
}

#[test]
fn a_power_is_evaluated() {
    let calc = CalculatorPlugin::new();
    assert_eq!(calc.evaluate("2^10"), Some("1024".to_string()));
    assert_eq!(calc.evaluate("2^3^2"), Some("512".to_string()));
    let root = calc.evaluate("2^0.5").unwrap();
    assert!(root.starts_with("1.41421356"));
    assert_eq!(calc.filter("3^2").len(), 1);
}
