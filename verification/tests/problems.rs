use sparko_embedded_std::problem::{Problem, ProblemManager};

#[test]
fn test_problem_manager_iterates_active_problems() {
    let mut manager = ProblemManager::new();
    manager.set(None, "first problem".to_string());
    let second_id = manager.set(None, "second problem".to_string());
    manager.set(None, "third problem".to_string());
    manager.clear(second_id);

    let problems: Vec<&str> = manager.iter().collect();
    assert_eq!(problems, vec!["first problem", "third problem"]);
}

#[test]
fn test_problem_manager_is_empty() {
    let mut manager = ProblemManager::new();

    assert_eq!(manager.is_empty(), true);

    let second_id = manager.set(None, "second problem".to_string());

    assert_eq!(manager.is_empty(), false);

    manager.clear(second_id);

    assert_eq!(manager.is_empty(), true);
}

#[test]
fn test_problem_manager_borrowed_into_iterator() {
    let mut manager = ProblemManager::new();
    manager.set(None, "first problem".to_string());
    manager.set(None, "second problem".to_string());

    let problems: Vec<&str> = manager.into_iter().collect();
    assert_eq!(problems, vec!["first problem", "second problem"]);
}

#[test]
fn problem_set_then_clear_leaves_no_active_problem() {
    let mut manager = ProblemManager::new();
    let mut problem = Problem::new();
    assert!(problem.is_clear());
    assert!(!problem.is_set());
    problem.set(&mut manager, "wifi down");
    assert!(problem.is_set());
    assert!(!manager.is_empty());
    assert_eq!(problem.message(&manager), "wifi down");
    problem.clear(&mut manager);
    assert!(problem.is_clear());
    assert!(manager.is_empty());
    let problems: Vec<&str> = manager.iter().collect();
    assert!(problems.is_empty());
}

#[test]
fn problem_set_twice_reuses_its_slot() {
    let mut manager = ProblemManager::new();
    let mut problem = Problem::new();
    problem.set(&mut manager, "one");
    problem.set(&mut manager, "two");
    let problems: Vec<&str> = manager.iter().collect();
    assert_eq!(problems, vec!["two"]);
}

#[test]
fn problem_slot_reused_after_clear_by_id() {
    let mut manager = ProblemManager::new();
    let id = manager.set(None, "a".to_string());
    manager.clear(id);
    let again = manager.set(id, "b".to_string());
    assert_eq!(again, id);
    assert_eq!(manager.message_at(0), Some("b"));
}

#[test]
fn problem_is_set_after_a_set_and_clear_after_a_clear() {
    let mut manager = ProblemManager::new();
    let mut problem = Problem::new();
    assert!(problem.is_clear() && !problem.is_set());
    for (k, set) in [true, true, false, true, false, false, true].iter().enumerate() {
        if *set {
            problem.set(&mut manager, &format!("call {}", k));
        } else {
            problem.clear(&mut manager);
        }
        assert_eq!(problem.is_set(), *set);
        assert_eq!(problem.is_clear(), !*set);
    }
}
