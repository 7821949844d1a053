use nullslate::template::{copy_template, materialize, process_template, render, OutputEntry, SourceEntry};

fn file(path: &str, content: &[u8]) -> SourceEntry {
    SourceEntry { path: path.to_string(), is_dir: false, content: content.to_vec() }
}

fn dir(path: &str) -> SourceEntry {
    SourceEntry { path: path.to_string(), is_dir: true, content: Vec::new() }
}

fn out_file(path: &str, content: &[u8]) -> OutputEntry {
    OutputEntry { path: path.to_string(), is_dir: false, content: content.to_vec() }
}

fn out_dir(path: &str) -> OutputEntry {
    OutputEntry { path: path.to_string(), is_dir: true, content: Vec::new() }
}

#[test]
fn process_template_replaces_placeholder() {
    let result = process_template("name: {{project_name}}", "my-app");
    assert_eq!(result, "name: my-app");
}

#[test]
fn process_template_no_placeholder() {
    let input = "no placeholders here";
    let result = process_template(input, "my-app");
    assert_eq!(result, input);
}

#[test]
fn process_template_multiple_placeholders() {
    let result = process_template("{{project_name}} and {{project_name}}", "my-app");
    assert_eq!(result, "my-app and my-app");
}

#[test]
fn process_template_leaves_no_placeholder_behind() {
    let result = process_template(
        "# {{project_name}}\n\"name\": \"{{project_name}}\",\n{{project_name}}{{project_name}}\n",
        "my-app",
    );
    assert_eq!(result, "# my-app\n\"name\": \"my-app\",\nmy-appmy-app\n");
    assert!(!result.contains("{{project_name}}"));
    assert_eq!(result.matches("my-app").count(), 4);
}

#[test]
fn process_template_is_case_sensitive_and_literal() {
    assert_eq!(process_template("{{Project_Name}} {project_name} {{ project_name }}", "x"),
        "{{Project_Name}} {project_name} {{ project_name }}");
    assert_eq!(process_template("{{{project_name}}}", "x"), "{x}");
    assert_eq!(process_template("{{project_name}", "x"), "{{project_name}");
    assert_eq!(process_template("", "x"), "");
}

#[test]
fn process_template_keeps_text_that_is_not_ascii() {
    assert_eq!(process_template("é{{project_name}}→ü", "my-app"), "émy-app→ü");
    assert_eq!(process_template("{{project_name}}", "naïve"), "naïve");
}

#[test]
fn process_template_agrees_with_str_replace() {
    let name = "my-app";
    for text in ["", "{", "{{", "{{project_name}}", "a{{project_name}}b{{project_name}}",
        "{{project_name}}{{project_name}}", "{{project_{{project_name}}name}}", "{{{{project_name}}}}"] {
        assert_eq!(process_template(text, name), text.replace("{{project_name}}", name));
    }
}

#[test]
fn render_copies_bytes_that_are_not_text() {
    let binary: Vec<u8> = vec![0x89, 0x50, 0x4e, 0x47, 0xff, 0xfe, 0x00, 0x7b, 0x7b];
    assert_eq!(render(&binary, "my-app"), binary);
    let truncated: Vec<u8> = vec![b'a', 0xe2, 0x82];
    assert_eq!(render(&truncated, "my-app"), truncated);
    let mut with_token = b"{{project_name}}".to_vec();
    with_token.push(0xff);
    assert_eq!(render(&with_token, "my-app"), with_token);
}

#[test]
fn render_rewrites_text() {
    assert_eq!(render(b"<title>{{project_name}}</title>", "my-app"), b"<title>my-app</title>".to_vec());
    assert_eq!(render("é {{project_name}}".as_bytes(), "my-app"), "é my-app".as_bytes().to_vec());
    assert_eq!(render(b"", "my-app"), Vec::<u8>::new());
}

#[test]
fn materialize_keeps_path_and_kind() {
    assert_eq!(materialize(&file("README.md", b"# {{project_name}}"), "my-app"), out_file("README.md", b"# my-app"));
    assert_eq!(materialize(&dir("src"), "my-app"), out_dir("src"));
}

#[test]
fn copy_template_rewrites_text_and_copies_binary() {
    let tree = vec![
        dir("src"),
        file("src/main.tsx", b"export const name = \"{{project_name}}\""),
        file("logo.png", &[0x89, 0x50, 0xff, 0x00]),
    ];
    let out = copy_template(&tree, "my-app", &[]);
    assert_eq!(
        out,
        vec![
            out_dir("src"),
            out_file("src/main.tsx", b"export const name = \"my-app\""),
            out_file("logo.png", &[0x89, 0x50, 0xff, 0x00]),
        ]
    );
}

#[test]
fn copy_template_omits_a_skipped_directory_and_all_below_it() {
    let tree = vec![
        dir("content"),
        dir("content/docs"),
        file("content/docs/intro.mdx", b"# Intro"),
        dir("content/docs/guide"),
        file("content/docs/guide/a.mdx", b"a"),
        file("content/blog.md", b"blog"),
    ];
    let out = copy_template(&tree, "my-app", &["content/docs"]);
    assert_eq!(out, vec![out_dir("content"), out_file("content/blog.md", b"blog")]);
    assert!(out.iter().all(|e| !e.path.starts_with("content/docs")));
}

#[test]
fn copy_template_never_copies_the_template_description() {
    let tree = vec![file("template.json", b"{}"), file("template.json.bak", b"{}"), file("a/template.json", b"{}")];
    let out = copy_template(&tree, "my-app", &[]);
    assert_eq!(out, vec![out_file("template.json.bak", b"{}"), out_file("a/template.json", b"{}")]);
}

#[test]
fn copy_template_of_an_empty_tree_is_empty() {
    assert_eq!(copy_template(&[], "my-app", &["src"]), Vec::<OutputEntry>::new());
}
