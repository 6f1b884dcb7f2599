use elasticsearch_core_mcp_server::servers::elasticsearch::Tools;
use elasticsearch_core_mcp_server::servers::IncludeExclude;
use elasticsearch_core_mcp_server::servers::NamedTool;

fn tools(names: &[&str]) -> Vec<NamedTool<usize>> {
    names.iter().enumerate().map(|(i, n)| NamedTool { name: n.to_string(), tool: i }).collect()
}

fn names(tools: &[NamedTool<usize>]) -> Vec<(String, usize)> {
    tools.iter().map(|t| (t.name.clone(), t.tool)).collect()
}

fn list(names: &[&str]) -> Vec<String> {
    names.iter().map(|n| n.to_string()).collect()
}

#[test]
fn an_inclusion_list_shows_what_it_names() {
    let rule = IncludeExclude::Include(list(&["search", "esql"]));
    assert!(rule.is_included("search"));
    assert!(rule.is_included("esql"));
    assert!(!rule.is_included("list_indices"));
    assert!(!rule.is_included("Search"));
    assert!(!rule.is_included("searc"));
    assert!(!rule.is_included(""));
}

#[test]
fn an_exclusion_list_hides_what_it_names() {
    let rule = IncludeExclude::Exclude(list(&["search", "esql"]));
    assert!(!rule.is_included("search"));
    assert!(!rule.is_included("esql"));
    assert!(rule.is_included("list_indices"));
    assert!(rule.is_included("search "));
}

#[test]
fn empty_lists() {
    assert!(!IncludeExclude::Include(Vec::new()).is_included("search"));
    assert!(IncludeExclude::Exclude(Vec::new()).is_included("search"));
}

#[test]
fn filter_keeps_the_order_of_the_list() {
    let rule = IncludeExclude::Include(list(&["get_mappings", "search", "nothing"]));
    let mut all = tools(&["list_indices", "search", "get_mappings", "search", "esql"]);
    rule.filter(&mut all);
    assert_eq!(
        names(&all),
        vec![("search".to_string(), 1), ("get_mappings".to_string(), 2), ("search".to_string(), 3)]
    );
}

#[test]
fn filter_with_an_exclusion_list() {
    let rule = IncludeExclude::Exclude(list(&["search"]));
    let mut all = tools(&["list_indices", "search", "get_mappings", "search", "esql"]);
    rule.filter(&mut all);
    assert_eq!(
        names(&all),
        vec![
            ("list_indices".to_string(), 0),
            ("get_mappings".to_string(), 2),
            ("esql".to_string(), 4)
        ]
    );
}

#[test]
fn filter_of_an_empty_list() {
    let rule = IncludeExclude::Exclude(list(&["search"]));
    let mut none = tools(&[]);
    rule.filter(&mut none);
    assert!(none.is_empty());
}

#[test]
fn without_a_rule_every_tool_is_shown() {
    let all_shown = Tools::default();
    assert!(all_shown.incl_excl.is_none());
    assert!(all_shown.custom.is_empty());
    assert!(all_shown.is_included("search"));
    let mut all = tools(&["list_indices", "search"]);
    all_shown.filter(&mut all);
    assert_eq!(names(&all), vec![("list_indices".to_string(), 0), ("search".to_string(), 1)]);

    let some = Tools {
        incl_excl: Some(IncludeExclude::Include(list(&["search"]))),
        custom: std::collections::HashMap::new(),
    };
    assert!(some.is_included("search"));
    assert!(!some.is_included("list_indices"));
    some.filter(&mut all);
    assert_eq!(names(&all), vec![("search".to_string(), 1)]);
}
