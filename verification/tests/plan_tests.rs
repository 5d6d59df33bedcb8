use flask_app_builder::join_path;
use flask_app_builder::messages::{build_initial_prompt, build_step_prompt};
use flask_app_builder::plan::{app_directory, file_spec, history_file_name, model_name};

#[test]
fn plan_lists_the_nine_files_in_order() {
    let plan = file_spec();
    let names: Vec<&str> = plan.iter().map(|e| e.path.as_str()).collect();
    assert_eq!(
        names,
        vec![
            "app.py",
            "config.py",
            "models.py",
            "routes.py",
            "forms.py",
            "templates/index.html",
            "templates/layout.html",
            "static/style.css",
            "requirements.txt",
        ]
    );
}

#[test]
fn plan_instructions_name_their_files() {
    let plan = file_spec();
    assert_eq!(
        plan[0].instruction,
        "Create or update the main Flask application file (app.py) with necessary imports and app initialization."
    );
    assert_eq!(
        plan[8].instruction,
        "Create or update the requirements.txt file listing all necessary Python packages."
    );
}

#[test]
fn fixed_identifiers() {
    assert_eq!(model_name(), "llama3.2");
    assert_eq!(app_directory(), "flask_app");
    assert_eq!(history_file_name(), "generation_history.json");
}

#[test]
fn join_path_uses_one_slash() {
    assert_eq!(
        join_path("flask_app", "templates/index.html"),
        "flask_app/templates/index.html"
    );
    assert_eq!(join_path("flask_app", "app.py"), "flask_app/app.py");
}

#[test]
fn initial_prompt_embeds_the_request() {
    let built = build_initial_prompt("a blog app");
    let expected = format!(
        "You are a Python Flask expert. Your task is to help build or update a multi-file Flask v3 web application based on the following request: '{}'. \n        You will be asked to generate or modify Python code for different components of the application. \n        Provide only the code or content, without any explanations or Markdown formatting. Each response should be a complete, valid file for the specified component.\n        If the file already exists, incorporate the new requirements while preserving existing functionality.",
        "a blog app"
    );
    assert_eq!(built, expected);
}

#[test]
fn step_prompt_is_context_blank_line_instruction() {
    assert_eq!(build_step_prompt("ctx", "do it"), "ctx\n\ndo it");
}
