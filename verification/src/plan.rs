use vstd::prelude::*;

verus! {

/// One entry of the fixed generation plan: a relative output path under the
/// application directory, and the natural-language instruction sent to the
/// generation backend for that file.
pub struct FileSpecEntry {
    pub path: String,
    pub instruction: String,
}

impl View for FileSpecEntry {
    type V = (Seq<char>, Seq<char>);

    open spec fn view(&self) -> (Seq<char>, Seq<char>) {
        (self.path@, self.instruction@)
    }
}

/// The fixed, ordered plan of the files a run generates.  Order matters:
/// later instructions may assume earlier files exist, though no generated
/// content is fed back into later prompts.
pub open spec fn plan_spec() -> Seq<(Seq<char>, Seq<char>)> {
    seq![
        ("app.py"@,
            "Create or update the main Flask application file (app.py) with necessary imports and app initialization."@),
        ("config.py"@,
            "Create or update the configuration file (config.py) with any necessary settings."@),
        ("models.py"@,
            "Create or update the models file (models.py) with any database models the application might need."@),
        ("routes.py"@,
            "Create or update the routes file (routes.py) with all the necessary route handlers."@),
        ("forms.py"@,
            "Create or update the forms file (forms.py) with any form classes the application might use."@),
        ("templates/index.html"@,
            "Create or update the HTML template for the main page."@),
        ("templates/layout.html"@,
            "Create or update the base layout HTML template."@),
        ("static/style.css"@,
            "Create or update the CSS file for styling the application."@),
        ("requirements.txt"@,
            "Create or update the requirements.txt file listing all necessary Python packages."@),
    ]
}

/// Builds the fixed plan as executable data, entry for entry equal to
/// `plan_spec`.
pub fn file_spec() -> (r: Vec<FileSpecEntry>)
    ensures
        r@.len() == 9,
        forall|i: int| 0 <= i < r@.len() ==> r@[i]@ == plan_spec()[i],
{
    let mut v: Vec<FileSpecEntry> = Vec::new();
    v.push(FileSpecEntry {
        path: "app.py".to_owned(),
        instruction: "Create or update the main Flask application file (app.py) with necessary imports and app initialization.".to_owned(),
    });
    v.push(FileSpecEntry {
        path: "config.py".to_owned(),
        instruction: "Create or update the configuration file (config.py) with any necessary settings.".to_owned(),
    });
    v.push(FileSpecEntry {
        path: "models.py".to_owned(),
        instruction: "Create or update the models file (models.py) with any database models the application might need.".to_owned(),
    });
    v.push(FileSpecEntry {
        path: "routes.py".to_owned(),
        instruction: "Create or update the routes file (routes.py) with all the necessary route handlers.".to_owned(),
    });
    v.push(FileSpecEntry {
        path: "forms.py".to_owned(),
        instruction: "Create or update the forms file (forms.py) with any form classes the application might use.".to_owned(),
    });
    v.push(FileSpecEntry {
        path: "templates/index.html".to_owned(),
        instruction: "Create or update the HTML template for the main page.".to_owned(),
    });
    v.push(FileSpecEntry {
        path: "templates/layout.html".to_owned(),
        instruction: "Create or update the base layout HTML template.".to_owned(),
    });
    v.push(FileSpecEntry {
        path: "static/style.css".to_owned(),
        instruction: "Create or update the CSS file for styling the application.".to_owned(),
    });
    v.push(FileSpecEntry {
        path: "requirements.txt".to_owned(),
        instruction: "Create or update the requirements.txt file listing all necessary Python packages.".to_owned(),
    });
    v
}

/// The fixed identifier of the generation model the backend is asked for.
pub fn model_name() -> (r: String)
    ensures
        r@ == "llama3.2"@,
{
    "llama3.2".to_owned()
}

/// The fixed application output directory every run writes under.
pub fn app_directory() -> (r: String)
    ensures
        r@ == "flask_app"@,
{
    "flask_app".to_owned()
}

/// The name of the history artifact written at the end of a run, relative to
/// the application directory.
pub fn history_file_name() -> (r: String)
    ensures
        r@ == "generation_history.json"@,
{
    "generation_history.json".to_owned()
}

} // verus!
