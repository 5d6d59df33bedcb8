use vstd::prelude::*;

verus! {

use vstd::string::StringExecFns;

/// The shared instruction context sent ahead of every per-file instruction:
/// an expert-persona directive built around the user's free-text request.
pub open spec fn initial_prompt_spec(user_input: Seq<char>) -> Seq<char> {
    "You are a Python Flask expert. Your task is to help build or update a multi-file Flask v3 web application based on the following request: '"@
        + user_input
        + "'. \n        You will be asked to generate or modify Python code for different components of the application. \n        Provide only the code or content, without any explanations or Markdown formatting. Each response should be a complete, valid file for the specified component.\n        If the file already exists, incorporate the new requirements while preserving existing functionality."@
}

/// Builds the shared instruction context for a run from the user's request.
pub fn build_initial_prompt(user_input: &str) -> (r: String)
    ensures
        r@ == initial_prompt_spec(user_input@),
{
    let mut s =
        "You are a Python Flask expert. Your task is to help build or update a multi-file Flask v3 web application based on the following request: '".to_owned();
    s.append(user_input);
    s.append(
        "'. \n        You will be asked to generate or modify Python code for different components of the application. \n        Provide only the code or content, without any explanations or Markdown formatting. Each response should be a complete, valid file for the specified component.\n        If the file already exists, incorporate the new requirements while preserving existing functionality.",
    );
    s
}

/// The full prompt for one step: the shared context, a blank line, then the
/// step's own instruction.
pub fn build_step_prompt(initial: &str, instruction: &str) -> (r: String)
    ensures
        r@ == initial@ + "\n\n"@ + instruction@,
{
    let mut s = initial.to_owned();
    s.append("\n\n");
    s.append(instruction);
    s
}

/// Log line announcing that a step has started.
pub fn generating_message(file_name: &str) -> (r: String)
    ensures
        r@ == "\nGenerating or updating "@ + file_name@ + "...\n"@,
{
    let mut s = "\nGenerating or updating ".to_owned();
    s.append(file_name);
    s.append("...\n");
    s
}

/// First log line of a run, naming the application output directory.
pub fn using_directory_message(dir: &str) -> (r: String)
    ensures
        r@ == "Using application directory: "@ + dir@ + "\n"@,
{
    let mut s = "Using application directory: ".to_owned();
    s.append(dir);
    s.append("\n");
    s
}

/// Log line for the fatal case: the application output directory could not
/// be created.
pub fn dir_error_message(err: &str) -> (r: String)
    ensures
        r@ == "Error creating directory: "@ + err@ + "\n"@,
{
    let mut s = "Error creating directory: ".to_owned();
    s.append(err);
    s.append("\n");
    s
}

/// Log line for a failed parent-directory creation during one step.
pub fn parent_dir_error_message(parent: &str, err: &str) -> (r: String)
    ensures
        r@ == "Error creating directory "@ + parent@ + ": "@ + err@ + "\n"@,
{
    let mut s = "Error creating directory ".to_owned();
    s.append(parent);
    s.append(": ");
    s.append(err);
    s.append("\n");
    s
}

/// Outcome string of a successful file write, naming the resolved path.
pub fn file_written_message(path: &str) -> (r: String)
    ensures
        r@ == "Created/Updated file: "@ + path@,
{
    let mut s = "Created/Updated file: ".to_owned();
    s.append(path);
    s
}

/// Outcome string of a failed file write, naming the path and the error.
pub fn file_write_error_message(path: &str, err: &str) -> (r: String)
    ensures
        r@ == "Error creating/updating file "@ + path@ + ": "@ + err@,
{
    let mut s = "Error creating/updating file ".to_owned();
    s.append(path);
    s.append(": ");
    s.append(err);
    s
}

/// Log block showing the sanitized backend output recorded for one file.
pub fn llm_output_message(file_name: &str, content: &str) -> (r: String)
    ensures
        r@ == "LLM Output for "@ + file_name@ + ":\n"@ + content@ + "\n"@,
{
    let mut s = "LLM Output for ".to_owned();
    s.append(file_name);
    s.append(":\n");
    s.append(content);
    s.append("\n");
    s
}

/// Log line recording a file-write outcome string.
pub fn file_operation_message(result: &str) -> (r: String)
    ensures
        r@ == "File operation: "@ + result@ + "\n"@,
{
    let mut s = "File operation: ".to_owned();
    s.append(result);
    s.append("\n");
    s
}

/// Log line for a failed generation-backend call.
pub fn llm_error_message(err: &str) -> (r: String)
    ensures
        r@ == "Error in LLM interaction: "@ + err@ + "\n"@,
{
    let mut s = "Error in LLM interaction: ".to_owned();
    s.append(err);
    s.append("\n");
    s
}

/// Log line for a failed write of the history artifact.
pub fn history_write_error_message(err: &str) -> (r: String)
    ensures
        r@ == "Error writing history file: "@ + err@ + "\n"@,
{
    let mut s = "Error writing history file: ".to_owned();
    s.append(err);
    s.append("\n");
    s
}

/// The final log message of a run, naming the output directory and telling
/// the poller that a redirect follows.
pub fn completion_message(dir: &str) -> (r: String)
    ensures
        r@ == "\nFlask application generation/update completed! Files are in the '"@ + dir@
            + "' directory.\n"@ + "Redirecting to main page in 3 seconds..."@,
{
    let mut s = "\nFlask application generation/update completed! Files are in the '".to_owned();
    s.append(dir);
    s.append("' directory.\n");
    s.append("Redirecting to main page in 3 seconds...");
    s
}

} // verus!
