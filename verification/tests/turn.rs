use aia::turn::{ai_context, initial_input, join_all};

#[test]
fn context_text_is_exact() {
    let files = vec!["a.rs".to_string(), "b.rs".to_string(), "Cargo.toml".to_string()];
    let text = ai_context("/home/user/project", &files);
    assert_eq!(
        text,
        "Current directory: /home/user/project\nFiles in directory: a.rs, b.rs, Cargo.toml"
    );
}

#[test]
fn context_text_with_no_files() {
    let text = ai_context("/empty", &Vec::new());
    assert_eq!(text, "Current directory: /empty\nFiles in directory: ");
}

#[test]
fn first_iteration_takes_the_arguments() {
    let args = vec!["aia".to_string(), "list".to_string(), "files".to_string()];
    assert_eq!(initial_input(0, &args), Some("list files".to_string()));
}

#[test]
fn later_iterations_prompt_instead() {
    let args = vec!["aia".to_string(), "list".to_string()];
    assert_eq!(initial_input(1, &args), None);
}

#[test]
fn bare_invocation_prompts() {
    let args = vec!["aia".to_string()];
    assert_eq!(initial_input(0, &args), None);
}

#[test]
fn join_uses_the_separator_between_parts_only() {
    let parts = vec!["x".to_string(), "y".to_string(), "z".to_string()];
    assert_eq!(join_all(&parts, 0, ", "), "x, y, z");
    assert_eq!(join_all(&parts, 1, " "), "y z");
    assert_eq!(join_all(&parts, 3, " "), "");
}
