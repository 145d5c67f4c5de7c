use aristar_worktrees::tasks::{
    accept_agent_impl, add_agent_to_task_impl, missing_agents, source_ref_from, agent_worktree_path, cleanup_unaccepted_agents_impl,
    create_task_impl, delete_task_impl, get_task_impl, get_tasks_impl, recreate_agent_worktree_impl,
    remove_agent_from_task_impl, source_ref, update_agent_session_impl, update_agent_status_impl,
    update_task_impl, validate_task_request, validate_task_worktrees_impl, AgentStatus,
    ModelSelection, TaskManagerState, TaskStatus, TaskStoreData,
};

fn model(provider: &str, model: &str) -> ModelSelection {
    ModelSelection { provider_id: provider.to_string(), model_id: model.to_string() }
}

fn state_with_task(n: usize) -> TaskManagerState {
    let mut state = TaskManagerState::new(TaskStoreData::default());
    let models: Vec<ModelSelection> = (0..n).map(|i| model("p", &format!("m{}", i))).collect();
    let paths: Vec<String> = (0..n).map(|i| format!("/no/such/wt{}", i)).collect();
    create_task_impl(
        &mut state,
        "t1".to_string(),
        "Task".to_string(),
        "branch".to_string(),
        Some("main".to_string()),
        None,
        "/repo".to_string(),
        "build".to_string(),
        &models,
        &paths,
        100,
    )
    .unwrap();
    state
}

fn accepted_ids(state: &TaskManagerState) -> Vec<String> {
    let t = get_task_impl(state, "t1").unwrap();
    t.agents.iter().filter(|a| a.accepted).map(|a| a.id.clone()).collect()
}

#[test]
fn create_task_makes_one_agent_per_model_in_task_folder() {
    let folder = "/home/u/.aristar-worktrees/tasks/a1b2c3d4";
    let models = vec![model("anthropic", "mistral-large-4"), model("openai", "gpt-4")];
    let paths: Vec<String> = models
        .iter()
        .map(|m| agent_worktree_path(folder, "Refactor Auth", &m.model_id))
        .collect();
    assert_eq!(paths[0], format!("{}/refactor-auth-mistral-large-4", folder));
    assert_eq!(paths[1], format!("{}/refactor-auth-gpt-4", folder));
    let mut state = TaskManagerState::new(TaskStoreData::default());
    let task = create_task_impl(
        &mut state,
        "a1b2c3d4".to_string(),
        "Refactor Auth".to_string(),
        "branch".to_string(),
        Some("main".to_string()),
        None,
        "/repo".to_string(),
        "build".to_string(),
        &models,
        &paths,
        42,
    )
    .unwrap();
    assert_eq!(task.agents.len(), 2);
    assert_eq!(task.agents[0].id, "agent-1");
    assert_eq!(task.agents[1].id, "agent-2");
    assert_ne!(task.agents[0].worktree_path, task.agents[1].worktree_path);
    assert!(task.agents.iter().all(|a| a.worktree_path.starts_with(folder)));
    assert_eq!(task.agents[1].provider_id, "openai");
    assert_eq!(task.agents[0].status, AgentStatus::Idle);
    assert!(!task.agents[0].accepted);
    assert_eq!(task.status, TaskStatus::Idle);
    assert_eq!(task.created_at, 42);
    assert_eq!(get_tasks_impl(&state).unwrap().len(), 1);
}

#[test]
fn create_task_validates_first() {
    let mut state = TaskManagerState::new(TaskStoreData::default());
    let none: Vec<ModelSelection> = vec![];
    assert_eq!(
        validate_task_request("   ", &vec![model("p", "m")]),
        Err("Task name cannot be empty".to_string())
    );
    assert_eq!(
        validate_task_request("x", &none),
        Err("At least one model must be selected".to_string())
    );
    let r = create_task_impl(
        &mut state,
        "id".to_string(),
        " \t".to_string(),
        "branch".to_string(),
        None,
        None,
        "/r".to_string(),
        "build".to_string(),
        &vec![model("p", "m")],
        &vec!["/w".to_string()],
        1,
    );
    assert_eq!(r, Err("Task name cannot be empty".to_string()));
    assert!(get_tasks_impl(&state).unwrap().is_empty());
}

#[test]
fn accept_leaves_exactly_one_and_moves() {
    let mut state = state_with_task(3);
    accept_agent_impl(&mut state, "t1", "agent-2", 200).unwrap();
    assert_eq!(accepted_ids(&state), vec!["agent-2".to_string()]);
    assert_eq!(get_task_impl(&state, "t1").unwrap().updated_at, 200);
    accept_agent_impl(&mut state, "t1", "agent-1", 300).unwrap();
    assert_eq!(accepted_ids(&state), vec!["agent-1".to_string()]);
}

#[test]
fn accept_errors() {
    let mut state = state_with_task(2);
    accept_agent_impl(&mut state, "t1", "agent-2", 200).unwrap();
    assert_eq!(
        accept_agent_impl(&mut state, "nope", "agent-1", 1),
        Err("Task not found: nope".to_string())
    );
    assert_eq!(accepted_ids(&state), vec!["agent-2".to_string()]);
    assert_eq!(
        accept_agent_impl(&mut state, "t1", "agent-9", 1),
        Err("Agent not found: agent-9".to_string())
    );
    assert!(accepted_ids(&state).is_empty());
}

#[test]
fn cleanup_after_accept_keeps_only_the_accepted_agent() {
    let mut state = state_with_task(3);
    accept_agent_impl(&mut state, "t1", "agent-1", 200).unwrap();
    let removed = cleanup_unaccepted_agents_impl(&mut state, "t1", 300).unwrap();
    assert_eq!(removed, vec!["/no/such/wt1".to_string(), "/no/such/wt2".to_string()]);
    let t = get_task_impl(&state, "t1").unwrap();
    assert_eq!(t.agents.len(), 1);
    assert_eq!(t.agents[0].id, "agent-1");
    assert_eq!(t.updated_at, 300);
    assert_eq!(
        cleanup_unaccepted_agents_impl(&mut state, "zz", 1),
        Err("Task not found: zz".to_string())
    );
}

#[test]
fn agents_are_added_removed_and_updated() {
    let mut state = state_with_task(1);
    let t = add_agent_to_task_impl(
        &mut state,
        "t1",
        "gpt-4".to_string(),
        "openai".to_string(),
        Some("plan".to_string()),
        "/wt/new".to_string(),
        500,
    )
    .unwrap();
    assert_eq!(t.agents.len(), 2);
    assert_eq!(t.agents[1].id, "agent-2");
    assert_eq!(t.agents[1].agent_type, Some("plan".to_string()));
    assert_eq!(t.updated_at, 500);
    update_agent_session_impl(&mut state, "t1", "agent-2", Some("s-1".to_string()), 600).unwrap();
    update_agent_status_impl(&mut state, "t1", "agent-2", AgentStatus::Running, 700).unwrap();
    let t = get_task_impl(&state, "t1").unwrap();
    assert_eq!(t.agents[1].session_id, Some("s-1".to_string()));
    assert_eq!(t.agents[1].status, AgentStatus::Running);
    assert_eq!(t.updated_at, 700);
    assert_eq!(
        update_agent_status_impl(&mut state, "t1", "agent-7", AgentStatus::Failed, 1),
        Err("Agent not found: agent-7".to_string())
    );
    let path = remove_agent_from_task_impl(&mut state, "t1", "agent-1", 800).unwrap();
    assert_eq!(path, "/no/such/wt0");
    let t = get_task_impl(&state, "t1").unwrap();
    assert_eq!(t.agents.len(), 1);
    assert_eq!(t.agents[0].id, "agent-2");
}

#[test]
fn tasks_are_updated_validated_and_deleted() {
    let mut state = state_with_task(2);
    let t = update_task_impl(&mut state, "t1", Some("Renamed".to_string()), Some(TaskStatus::Running), 900).unwrap();
    assert_eq!(t.name, "Renamed");
    assert_eq!(t.status, TaskStatus::Running);
    assert_eq!(t.updated_at, 900);
    assert_eq!(source_ref(&t), Some("main".to_string()));
    let missing = validate_task_worktrees_impl(&state, "t1").unwrap();
    assert_eq!(missing, vec!["agent-1".to_string(), "agent-2".to_string()]);
    let plan = recreate_agent_worktree_impl(&state, "t1", "agent-2").unwrap();
    assert_eq!(plan.repo_path, "/repo");
    assert_eq!(plan.source_ref, Some("main".to_string()));
    assert_eq!(plan.worktree_path, "/no/such/wt1");
    let removed = delete_task_impl(&mut state, "t1").unwrap();
    assert_eq!(removed.id, "t1");
    assert!(get_tasks_impl(&state).unwrap().is_empty());
    assert_eq!(get_task_impl(&state, "t1"), Err("Task not found: t1".to_string()));
    assert_eq!(delete_task_impl(&mut state, "t1"), Err("Task not found: t1".to_string()));
}

#[test]
fn recreate_refuses_existing_worktree() {
    let dir = tempfile::TempDir::new().unwrap();
    let mut state = TaskManagerState::new(TaskStoreData::default());
    create_task_impl(
        &mut state,
        "t2".to_string(),
        "T".to_string(),
        "commit".to_string(),
        Some("dev".to_string()),
        Some("abc123".to_string()),
        "/repo".to_string(),
        "build".to_string(),
        &vec![model("p", "m")],
        &vec![dir.path().to_string_lossy().to_string()],
        1,
    )
    .unwrap();
    assert_eq!(
        source_ref(&get_task_impl(&state, "t2").unwrap()),
        Some("abc123".to_string())
    );
    assert_eq!(
        recreate_agent_worktree_impl(&state, "t2", "agent-1").err(),
        Some("Worktree already exists".to_string())
    );
    assert!(validate_task_worktrees_impl(&state, "t2").unwrap().is_empty());
}

#[test]
fn missing_agents_follow_the_disk_answers_in_order() {
    let state = state_with_task(3);
    let t = get_task_impl(&state, "t1").unwrap();
    assert_eq!(
        missing_agents(&t.agents, &vec![false, true, false]),
        vec!["agent-1".to_string(), "agent-3".to_string()]
    );
    assert!(missing_agents(&t.agents, &vec![true, true, true]).is_empty());
    assert_eq!(
        source_ref_from(&"commit".to_string(), &Some("b".to_string()), &Some("c".to_string())),
        Some("c".to_string())
    );
    assert_eq!(
        source_ref_from(&"branch".to_string(), &Some("b".to_string()), &None),
        Some("b".to_string())
    );
}

#[test]
fn unicode_whitespace_names_are_blank() {
    assert_eq!(
        validate_task_request("\u{3000}\u{a0}\t", &vec![model("p", "m")]),
        Err("Task name cannot be empty".to_string())
    );
    assert_eq!(validate_task_request(" x ", &vec![model("p", "m")]), Ok(()));
}
