use flask_app_builder::history::{history_to_json, HistoryEntry};

#[test]
fn empty_history_document() {
    let out = history_to_json("flask_app", &Vec::new());
    assert_eq!(out, "{\"app_directory\":\"flask_app\",\"iterations\":[]}");
}

#[test]
fn one_entry_document_is_exact() {
    let entries = vec![HistoryEntry {
        step: 1,
        file_name: String::from("app.py"),
        file_operation: String::from("Created/Updated file: flask_app/app.py"),
        file_content: String::from("print('hi')"),
    }];
    let out = history_to_json("flask_app", &entries);
    assert_eq!(
        out,
        "{\"app_directory\":\"flask_app\",\"iterations\":[{\"file_content\":\"print('hi')\",\"file_name\":\"app.py\",\"file_operation\":\"Created/Updated file: flask_app/app.py\",\"step\":1}]}"
    );
}

#[test]
fn strings_are_escaped() {
    let entries = vec![HistoryEntry {
        step: 12,
        file_name: String::from("a\"b"),
        file_operation: String::from("back\\slash"),
        file_content: String::from("line1\nline2\ttab\rcr\u{8}\u{c}\u{1}\u{1f}"),
    }];
    let out = history_to_json("dir", &entries);
    assert!(out.contains("\"file_name\":\"a\\\"b\""));
    assert!(out.contains("\"file_operation\":\"back\\\\slash\""));
    assert!(out.contains("line1\\nline2\\ttab\\rcr\\b\\f\\u0001\\u001f"));
    assert!(out.contains("\"step\":12"));
}

#[test]
fn document_reparses_with_both_fields() {
    let entries = vec![
        HistoryEntry {
            step: 1,
            file_name: String::from("app.py"),
            file_operation: String::from("Created/Updated file: flask_app/app.py"),
            file_content: String::from("x = 1\ny = \"two\""),
        },
        HistoryEntry {
            step: 3,
            file_name: String::from("models.py"),
            file_operation: String::from("Created/Updated file: flask_app/models.py"),
            file_content: String::from(""),
        },
    ];
    let out = history_to_json("flask_app", &entries);
    let value: serde_json::Value = serde_json::from_str(&out).unwrap();
    assert_eq!(value["app_directory"], "flask_app");
    let iterations = value["iterations"].as_array().unwrap();
    assert_eq!(iterations.len(), 2);
    assert_eq!(iterations[0]["step"], 1);
    assert_eq!(iterations[0]["file_content"], "x = 1\ny = \"two\"");
    assert_eq!(iterations[1]["step"], 3);
    assert_eq!(iterations[1]["file_name"], "models.py");
}

#[test]
fn multi_digit_steps_render_in_decimal() {
    let entries = vec![HistoryEntry {
        step: 1048576,
        file_name: String::from("f"),
        file_operation: String::from("op"),
        file_content: String::from("c"),
    }];
    let out = history_to_json("d", &entries);
    assert!(out.contains("\"step\":1048576"));
}
