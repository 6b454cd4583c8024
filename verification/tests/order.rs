use togglctl::filter::Scored;
use togglctl::order::{stable_sort, Ranked};
use togglctl::toggl::Project;

fn project(id: usize, name: &str) -> Project {
    Project { id, workspace_id: 1, name: name.to_string() }
}

fn ids(projects: &Vec<Project>) -> Vec<usize> {
    projects.iter().map(|p| p.id).collect()
}

#[test]
fn sort_of_nothing_is_nothing() {
    let sorted: Vec<Project> = stable_sort(Vec::new());
    assert!(sorted.is_empty());
}

#[test]
fn projects_sort_by_name_descending() {
    let sorted = stable_sort(vec![project(1, "alpha"), project(2, "gamma"), project(3, "beta")]);
    assert_eq!(ids(&sorted), vec![2, 3, 1]);
}

#[test]
fn projects_of_one_name_keep_their_order() {
    let sorted = stable_sort(vec![
        project(1, "same"),
        project(2, "zeta"),
        project(3, "same"),
        project(4, "alpha"),
        project(5, "same"),
    ]);
    assert_eq!(ids(&sorted), vec![2, 1, 3, 5, 4]);
}

#[test]
fn sort_agrees_with_std_stable_sort() {
    let names = ["b", "a", "c", "a", "", "B", "ab", "b", "\u{e9}", "c", "a"];
    let input: Vec<Project> = names.iter().enumerate().map(|(i, n)| project(i, n)).collect();
    let mut expected = input.clone();
    expected.sort_by(|a, b| b.name.cmp(&a.name));
    assert_eq!(stable_sort(input), expected);
}

#[test]
fn sorted_input_stays_as_it_is() {
    let input = vec![project(1, "c"), project(2, "b"), project(3, "a")];
    assert_eq!(stable_sort(input.clone()), input);
}

#[test]
fn project_outranks_by_greater_name() {
    assert!(project(1, "b").is_ahead_of(&project(2, "a")));
    assert!(!project(1, "a").is_ahead_of(&project(2, "b")));
    assert!(!project(1, "a").is_ahead_of(&project(2, "a")));
}

#[test]
fn scored_sort_by_score_descending_and_stable() {
    let input = vec![
        Scored { score: 5, project: project(1, "x") },
        Scored { score: 9, project: project(2, "y") },
        Scored { score: 5, project: project(3, "z") },
        Scored { score: -1, project: project(4, "w") },
        Scored { score: 9, project: project(5, "v") },
    ];
    let sorted = stable_sort(input);
    let order: Vec<usize> = sorted.iter().map(|s| s.project.id).collect();
    assert_eq!(order, vec![2, 5, 1, 3, 4]);
}
