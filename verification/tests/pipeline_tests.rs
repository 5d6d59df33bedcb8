use flask_app_builder::pipeline::{Pipeline, StepEvent};
use flask_app_builder::progress::{init_progress, Status};

fn written_event(pipeline: &Pipeline, content: &str) -> StepEvent {
    StepEvent::FileWritten {
        path: pipeline.current_path(),
        content: String::from(content),
    }
}

#[test]
fn full_run_reaches_completion_with_nine_entries() {
    let mut progress = init_progress();
    let mut pipeline = Pipeline::new("a blog app");
    pipeline.start_run(&mut progress);
    assert_eq!(progress.status, Status::Running);
    assert_eq!(progress.status.text(), "running");
    assert_eq!(progress.iteration, 0);
    assert_eq!(progress.max_iteration, 9);
    assert!(!progress.completed);
    assert_eq!(progress.output, "Using application directory: flask_app\n");

    for step in 1..=9u32 {
        let prompt = pipeline.begin_step(&mut progress);
        assert!(prompt.contains("'a blog app'"));
        assert_eq!(progress.iteration, step);
        assert!(progress.iteration <= progress.max_iteration);
        assert!(!progress.completed);
        let ev = written_event(&pipeline, "content");
        pipeline.complete_step(&mut progress, &ev);
        assert_eq!(progress.iteration, step);
    }

    assert!(!progress.completed);
    pipeline.finish_run(&mut progress);
    assert!(progress.completed);
    assert_eq!(progress.status, Status::Completed);
    assert_eq!(progress.status.text(), "completed");
    assert_eq!(progress.iteration, 9);

    assert_eq!(pipeline.history.len(), 9);
    for (i, entry) in pipeline.history.iter().enumerate() {
        assert_eq!(entry.step as usize, i + 1);
    }
    assert_eq!(pipeline.history[0].file_name, "app.py");
    assert_eq!(pipeline.history[8].file_name, "requirements.txt");
    assert_eq!(
        pipeline.history[0].file_operation,
        "Created/Updated file: flask_app/app.py"
    );
    assert!(progress.output.contains("\nGenerating or updating app.py...\n"));
    assert!(progress
        .output
        .ends_with("Files are in the 'flask_app' directory.\nRedirecting to main page in 3 seconds..."));
}

#[test]
fn failed_third_step_leaves_no_entry_but_run_completes() {
    let mut progress = init_progress();
    let mut pipeline = Pipeline::new("a blog app");
    pipeline.start_run(&mut progress);

    for step in 1..=9u32 {
        let _prompt = pipeline.begin_step(&mut progress);
        let ev = if step == 3 {
            StepEvent::BackendFailed {
                error: String::from("connection refused"),
            }
        } else {
            written_event(&pipeline, "content")
        };
        pipeline.complete_step(&mut progress, &ev);
    }
    pipeline.finish_run(&mut progress);

    assert!(progress.completed);
    assert!(progress.output.contains("\nGenerating or updating models.py...\n"));
    assert!(progress
        .output
        .contains("Error in LLM interaction: connection refused\n"));

    let steps: Vec<u32> = pipeline.history.iter().map(|e| e.step).collect();
    assert_eq!(steps, vec![1, 2, 4, 5, 6, 7, 8, 9]);
    let names: Vec<&str> = pipeline.history.iter().map(|e| e.file_name.as_str()).collect();
    assert!(!names.contains(&"models.py"));
}

#[test]
fn parent_dir_failure_skips_the_file() {
    let mut progress = init_progress();
    let mut pipeline = Pipeline::new("x");
    pipeline.start_run(&mut progress);
    let _prompt = pipeline.begin_step(&mut progress);
    let ev = StepEvent::ParentDirFailed {
        parent: String::from("flask_app"),
        error: String::from("permission denied"),
    };
    pipeline.complete_step(&mut progress, &ev);
    assert!(pipeline.history.is_empty());
    assert!(progress
        .output
        .contains("Error creating directory flask_app: permission denied\n"));
}

#[test]
fn failed_write_still_records_its_outcome() {
    let mut progress = init_progress();
    let mut pipeline = Pipeline::new("x");
    pipeline.start_run(&mut progress);
    let _prompt = pipeline.begin_step(&mut progress);
    let ev = StepEvent::FileWriteFailed {
        path: pipeline.current_path(),
        content: String::from("body"),
        error: String::from("disk full"),
    };
    pipeline.complete_step(&mut progress, &ev);
    assert_eq!(pipeline.history.len(), 1);
    assert_eq!(
        pipeline.history[0].file_operation,
        "Error creating/updating file flask_app/app.py: disk full"
    );
    assert!(progress
        .output
        .contains("File operation: Error creating/updating file flask_app/app.py: disk full\n"));
}

#[test]
fn fatal_directory_error_never_completes() {
    let mut progress = init_progress();
    progress.reset();
    Pipeline::record_fatal_dir_error(&mut progress, "read-only file system");
    assert_eq!(
        progress.output,
        "Error creating directory: read-only file system\n"
    );
    assert_eq!(progress.status, Status::Idle);
    assert!(!progress.completed);
}

#[test]
fn history_write_error_is_nonfatal() {
    let mut progress = init_progress();
    let pipeline = Pipeline::new("x");
    pipeline.start_run(&mut progress);
    Pipeline::record_history_error(&mut progress, "no space");
    assert!(progress.output.contains("Error writing history file: no space\n"));
    assert_eq!(progress.status, Status::Running);
    assert!(!progress.completed);
}

#[test]
fn current_path_joins_directory_and_file() {
    let pipeline = Pipeline::new("x");
    assert_eq!(pipeline.current_path(), "flask_app/app.py");
}

#[test]
fn step_prompt_holds_context_and_instruction() {
    let mut progress = init_progress();
    let pipeline = Pipeline::new("a wiki");
    pipeline.start_run(&mut progress);
    let prompt = pipeline.begin_step(&mut progress);
    assert!(prompt.starts_with("You are a Python Flask expert."));
    assert!(prompt.ends_with(
        "\n\nCreate or update the main Flask application file (app.py) with necessary imports and app initialization."
    ));
}

#[test]
fn sanitize_is_the_fence_stripper() {
    assert_eq!(Pipeline::sanitize("```\nhello\n```"), "hello");
}

#[test]
fn history_json_of_a_run_reparses() {
    let mut progress = init_progress();
    let mut pipeline = Pipeline::new("x");
    pipeline.start_run(&mut progress);
    let _prompt = pipeline.begin_step(&mut progress);
    let ev = written_event(&pipeline, "print('hi')");
    pipeline.complete_step(&mut progress, &ev);
    let json = pipeline.history_json();
    let value: serde_json::Value = serde_json::from_str(&json).unwrap();
    assert_eq!(value["app_directory"], "flask_app");
    let iterations = value["iterations"].as_array().unwrap();
    assert_eq!(iterations.len(), 1);
    assert_eq!(iterations[0]["step"], 1);
    assert_eq!(iterations[0]["file_name"], "app.py");
    assert_eq!(iterations[0]["file_content"], "print('hi')");
}
