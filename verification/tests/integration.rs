use nullslate::cli::{project_type_of, wants_database, Cli, Commands, InitArgs};
use nullslate::scaffold::{scaffold_app, scaffold_lib};
use nullslate::template::{OutputEntry, SourceEntry};
use nullslate::ui::ProjectType;

/// `init <name> --no-git --no-install -y --path <name>`
fn init(name: &str) -> InitArgs {
    InitArgs {
        name: Some(name.to_string()),
        docs: false,
        no_auth: false,
        db: "none".to_string(),
        path: Some(name.to_string()),
        no_git: true,
        no_install: true,
        template: None,
        project_type: "app".to_string(),
        lib: false,
        fullstack: false,
        lang: "typescript".to_string(),
        react: false,
        css: false,
        testing: false,
        yes: true,
    }
}

fn run(args: &InitArgs, template: &[SourceEntry]) -> Vec<OutputEntry> {
    let name = args.name.clone().unwrap();
    let project = match args.kind() {
        ProjectType::Lib => {
            scaffold_lib(template, &name, &args.lang, args.react, args.css, args.testing)
        }
        _ => scaffold_app(template, &name, args.docs, args.include_auth(), args.include_db()),
    };
    project.expect("CLI exited with error")
}

fn file(path: &str, content: &str) -> SourceEntry {
    SourceEntry { path: path.to_string(), is_dir: false, content: content.as_bytes().to_vec() }
}

fn dir(path: &str) -> SourceEntry {
    SourceEntry { path: path.to_string(), is_dir: true, content: Vec::new() }
}

fn is_there(tree: &[OutputEntry], path: &str) -> bool {
    tree.iter().any(|e| e.path == path)
}

fn read_to_string(tree: &[OutputEntry], path: &str) -> String {
    let entry = tree.iter().find(|e| e.path == path).unwrap();
    String::from_utf8(entry.content.clone()).unwrap()
}

fn app_template() -> Vec<SourceEntry> {
    vec![
        file("template.json", "{}"),
        file(
            "package.json",
            r#"{"name": "{{project_name}}", "dependencies": {"@auth/core": "^0.37.4", "pg": "^8.14.1"}, "devDependencies": {"@types/pg": "^8.11.11", "vite": "^6.0.0"}}"#,
        ),
        file("vite.config.ts", "export default {}"),
        file("index.html", "<title>{{project_name}}</title>"),
        dir("src"),
        dir("src/lib"),
        file("src/lib/auth.ts", "auth"),
        file("src/lib/db.ts", "db"),
        dir("src/routes"),
        file("src/routes/__root.tsx", "        <SessionProvider>\n<Outlet />\n        </SessionProvider>\n"),
    ]
}

fn lib_template() -> Vec<SourceEntry> {
    vec![
        file(
            "package.json",
            r#"{"name": "{{project_name}}", "devDependencies": {"typescript": "^5", "vitest": "^3", "react": "^19", "tailwindcss": "^4"}}"#,
        ),
        file("tsconfig.json", "{}"),
        file("tsup.config.ts", "export default {}"),
        file("vitest.config.ts", "export default {}"),
        dir("src"),
        dir("src/components"),
        file("src/components/button.tsx", "button"),
        dir("src/styles"),
        file("src/styles/index.css", "css"),
        dir("src/__tests__"),
    ]
}

#[test]
fn scaffold_minimal_project() {
    let args = InitArgs { no_auth: true, db: "none".to_string(), ..init("test-minimal") };
    let project = run(&args, &app_template());
    assert!(is_there(&project, "package.json"), "package.json not found");
    assert!(
        is_there(&project, "vite.config.ts") || is_there(&project, "index.html"),
        "Expected Vite project files"
    );
    assert!(!is_there(&project, "src/lib/auth.ts"), "auth.ts should be skipped");
    assert!(!is_there(&project, ".env"), ".env should not exist without auth");
}

#[test]
fn scaffold_with_auth() {
    let args = InitArgs { db: "none".to_string(), ..init("test-auth") };
    let project = run(&args, &app_template());
    assert!(is_there(&project, ".env"), ".env should exist with auth");

    let env_content = read_to_string(&project, ".env");
    assert!(env_content.contains("AUTH_SECRET="), ".env should contain AUTH_SECRET");
    assert!(env_content.contains("AUTH_GITHUB_ID="), ".env should contain AUTH_GITHUB_ID");
    assert!(!env_content.contains("DATABASE_URL"), ".env should not contain DATABASE_URL");
    assert!(!env_content.contains("JWT_SECRET"), ".env should not contain JWT_SECRET");
}

#[test]
fn scaffold_lib_project() {
    let args = InitArgs { lib: true, react: true, testing: true, ..init("test-lib") };
    let project = run(&args, &lib_template());
    assert!(is_there(&project, "package.json"), "package.json not found");
    assert!(is_there(&project, "tsup.config.ts"), "tsup.config.ts not found");
    assert!(is_there(&project, "src/components"), "React components should be included");
    assert!(is_there(&project, "vitest.config.ts"), "vitest.config.ts should be included");
    assert!(!is_there(&project, "src/styles"), "CSS should be excluded (not requested)");
}

#[test]
fn scaffold_minimal_lib() {
    let args = InitArgs { lib: true, ..init("test-lib-min") };
    let project = run(&args, &lib_template());
    assert!(!is_there(&project, "src/components"), "React should be excluded");
    assert!(!is_there(&project, "src/styles"), "CSS should be excluded");
    assert!(!is_there(&project, "vitest.config.ts"), "Testing should be excluded");
    assert!(is_there(&project, "tsconfig.json"), "TypeScript should be default");
}

#[test]
fn init_args_resolution() {
    let args = init("my-app");
    assert_eq!(args.kind(), ProjectType::App);
    assert_eq!(args.template_url(), "https://github.com/nullslate/app-template.git");
    assert_eq!(args.output_path("my-app"), "my-app");
    assert!(args.include_auth());
    assert!(!args.include_db());
    let args = InitArgs { path: None, lib: true, no_auth: true, db: "postgres".to_string(), ..init("x") };
    assert_eq!(args.kind(), ProjectType::Lib);
    assert_eq!(args.template_url(), "https://github.com/nullslate/lib-template.git");
    assert_eq!(args.output_path("my-lib"), "my-lib");
    assert!(!args.include_auth());
    assert!(args.include_db());
    let args = InitArgs {
        fullstack: true,
        template: Some("https://example.com/t.git".to_string()),
        path: Some("/tmp/out".to_string()),
        ..init("x")
    };
    assert_eq!(args.kind(), ProjectType::Fullstack);
    assert_eq!(args.template_url(), "https://example.com/t.git");
    assert_eq!(args.output_path("x"), "/tmp/out");
    let cli = Cli { command: Commands::Init(args.clone()) };
    assert_eq!(cli.command, Commands::Init(args));
    assert_ne!(Commands::Dev, Commands::Build);
}

#[test]
fn command_line_resolution() {
    assert_eq!(project_type_of("lib", false, false), ProjectType::Lib);
    assert_eq!(project_type_of("fullstack", false, false), ProjectType::Fullstack);
    assert_eq!(project_type_of("lib", false, true), ProjectType::Fullstack);
    assert_eq!(project_type_of("fullstack", true, true), ProjectType::Lib);
    assert_eq!(project_type_of("other", false, false), ProjectType::App);
    assert!(wants_database("postgres"));
    assert!(wants_database(""));
    assert!(!wants_database("none"));
}
