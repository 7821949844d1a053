use nullslate::fullstack::{copy_filtered, scaffold_fullstack, scaffold_fullstack_with};
use nullslate::manifest::ManifestError;
use nullslate::scaffold::{
    find_entry, push_env_file, read_text, rewrite_layout, rewrite_manifest, scaffold_app,
    scaffold_app_with, scaffold_lib, store_text, Found, ScaffoldError,
};
use nullslate::template::{OutputEntry, SourceEntry};

fn file(path: &str, content: &str) -> SourceEntry {
    SourceEntry { path: path.to_string(), is_dir: false, content: content.as_bytes().to_vec() }
}

fn dir(path: &str) -> SourceEntry {
    SourceEntry { path: path.to_string(), is_dir: true, content: Vec::new() }
}

fn out_file(path: &str, content: &str) -> OutputEntry {
    OutputEntry { path: path.to_string(), is_dir: false, content: content.as_bytes().to_vec() }
}

fn out_dir(path: &str) -> OutputEntry {
    OutputEntry { path: path.to_string(), is_dir: true, content: Vec::new() }
}

fn text_of<'a>(tree: &'a [OutputEntry], path: &str) -> &'a str {
    let entry = tree.iter().find(|e| e.path == path).unwrap();
    std::str::from_utf8(&entry.content).unwrap()
}

fn has(tree: &[OutputEntry], path: &str) -> bool {
    tree.iter().any(|e| e.path == path)
}

const MANIFEST: &str = r#"{
  "name": "{{project_name}}",
  "dependencies": {
    "@auth/core": "^0.37.4",
    "@mdx-js/react": "^3.1.0",
    "gray-matter": "^4.0.3",
    "pg": "^8.14.1",
    "react": "^19.0.0"
  },
  "devDependencies": {
    "@mdx-js/rollup": "^3.1.0",
    "@types/pg": "^8.11.11",
    "remark-frontmatter": "^5.0.0",
    "remark-mdx-frontmatter": "^5.0.0",
    "vite": "^6.0.0"
  }
}"#;

const LAYOUT: &str = "import { SessionProvider } from \"@/components/session-provider\"\nexport function Root() {\n  return (\n        <SessionProvider>\n          <Outlet />\n        </SessionProvider>\n  )\n}\n";

const LAYOUT_WITHOUT: &str = "export function Root() {\n  return (\n          <Outlet />\n  )\n}\n";

fn app_template() -> Vec<SourceEntry> {
    vec![
        file("template.json", "{\"name\": \"app\"}"),
        file("package.json", MANIFEST),
        file("index.html", "<title>{{project_name}}</title>"),
        dir("src"),
        dir("src/lib"),
        file("src/lib/auth.ts", "export const auth = 1"),
        file("src/lib/db.ts", "export const db = 1"),
        file("src/lib/docs.ts", "export const docs = 1"),
        file("src/lib/utils.ts", "export const name = \"{{project_name}}\""),
        dir("src/routes"),
        file("src/routes/__root.tsx", LAYOUT),
        dir("src/routes/docs"),
        file("src/routes/docs/index.tsx", "docs"),
        dir("src/components"),
        file("src/components/session-provider.tsx", "provider"),
        dir("api"),
        dir("api/auth"),
        file("api/auth/[...auth].ts", "handler"),
        dir("content"),
        dir("content/docs"),
        file("content/docs/intro.mdx", "# {{project_name}}"),
        SourceEntry { path: "public/logo.png".to_string(), is_dir: false, content: vec![0x89, 0x50, 0xff, 0xfe] },
    ]
}

#[test]
fn scaffold_app_with_everything_off() {
    let tree = scaffold_app_with(&app_template(), "my-app", false, false, false, "unused").unwrap();
    let paths: Vec<&str> = tree.iter().map(|e| e.path.as_str()).collect();
    assert_eq!(
        paths,
        vec![
            "package.json",
            "index.html",
            "src",
            "src/lib",
            "src/lib/utils.ts",
            "src/routes",
            "src/routes/__root.tsx",
            "src/components",
            "api",
            "content",
            "public/logo.png",
        ]
    );
    for rule in ["src/routes/docs", "content/docs", "src/lib/docs.ts", "src/lib/auth.ts", "api/auth",
        "src/components/session-provider.tsx", "src/lib/db.ts"] {
        assert!(tree.iter().all(|e| !e.path.starts_with(rule)), "{rule}");
    }
    assert!(!has(&tree, ".env"));
    assert!(!has(&tree, "template.json"));
    let manifest: serde_json::Value = serde_json::from_str(text_of(&tree, "package.json")).unwrap();
    assert_eq!(manifest["name"], "my-app");
    let deps = manifest["dependencies"].as_object().unwrap();
    let dev_deps = manifest["devDependencies"].as_object().unwrap();
    assert_eq!(deps.keys().collect::<Vec<_>>(), vec!["react"]);
    assert_eq!(dev_deps.keys().collect::<Vec<_>>(), vec!["vite"]);
    assert_eq!(deps["react"], "^19.0.0");
    assert_eq!(text_of(&tree, "src/routes/__root.tsx"), LAYOUT_WITHOUT);
    assert_eq!(text_of(&tree, "index.html"), "<title>my-app</title>");
    assert_eq!(text_of(&tree, "src/lib/utils.ts"), "export const name = \"my-app\"");
    let logo = tree.iter().find(|e| e.path == "public/logo.png").unwrap();
    assert_eq!(logo.content, vec![0x89, 0x50, 0xff, 0xfe]);
}

#[test]
fn scaffold_app_with_auth_writes_the_environment_file_last() {
    let secret = "aa".repeat(32);
    let tree = scaffold_app_with(&app_template(), "my-app", true, true, true, &secret).unwrap();
    assert_eq!(tree.len(), app_template().len());
    let last = tree.last().unwrap();
    assert_eq!(last.path, ".env");
    assert!(!last.is_dir);
    assert_eq!(
        String::from_utf8(last.content.clone()).unwrap(),
        format!("# Auth (GitHub OAuth)\nAUTH_SECRET={secret}\nAUTH_GITHUB_ID=\nAUTH_GITHUB_SECRET=\n")
    );
    assert_eq!(text_of(&tree, "src/routes/__root.tsx"), LAYOUT);
    assert!(has(&tree, "src/lib/auth.ts"));
    assert!(has(&tree, "content/docs/intro.mdx"));
    assert_eq!(text_of(&tree, "content/docs/intro.mdx"), "# my-app");
    let manifest: serde_json::Value = serde_json::from_str(text_of(&tree, "package.json")).unwrap();
    assert_eq!(manifest["dependencies"]["@auth/core"], "^0.37.4");
    assert_eq!(manifest["dependencies"]["pg"], "^8.14.1");
    assert_eq!(manifest["devDependencies"]["@mdx-js/rollup"], "^3.1.0");
}

#[test]
fn scaffold_app_with_auth_generates_a_secret() {
    let tree = scaffold_app(&app_template(), "my-app", false, true, false).unwrap();
    let env = text_of(&tree, ".env");
    let lines: Vec<&str> = env.lines().collect();
    let secret = lines[1].strip_prefix("AUTH_SECRET=").unwrap();
    assert_eq!(secret.len(), 64);
    assert!(secret.chars().all(|c| matches!(c, '0'..='9' | 'a'..='f')));
    assert!(lines.contains(&"AUTH_GITHUB_ID="));
    let other = scaffold_app(&app_template(), "my-app", false, true, false).unwrap();
    assert_ne!(text_of(&other, ".env"), env);
}

#[test]
fn scaffold_app_without_auth_creates_no_environment_file() {
    let tree = scaffold_app(&app_template(), "my-app", true, false, true).unwrap();
    assert!(!has(&tree, ".env"));
    assert!(!has(&tree, "src/lib/auth.ts"));
    assert!(has(&tree, "src/lib/db.ts"));
}

#[test]
fn scaffold_app_errors() {
    let without_manifest = vec![file("index.html", "x")];
    assert!(matches!(
        scaffold_app_with(&without_manifest, "my-app", true, true, true, ""),
        Err(ScaffoldError::MissingManifest)
    ));
    let manifest_is_dir = vec![dir("package.json")];
    assert!(matches!(
        scaffold_app_with(&manifest_is_dir, "my-app", true, true, true, ""),
        Err(ScaffoldError::UnreadableManifest)
    ));
    let manifest_is_binary =
        vec![SourceEntry { path: "package.json".to_string(), is_dir: false, content: vec![0xff, 0x00] }];
    assert!(matches!(
        scaffold_app_with(&manifest_is_binary, "my-app", true, true, true, ""),
        Err(ScaffoldError::UnreadableManifest)
    ));
    let manifest_is_broken = vec![file("package.json", "{")];
    assert!(matches!(
        scaffold_app_with(&manifest_is_broken, "my-app", true, true, true, ""),
        Err(ScaffoldError::Manifest(ManifestError::Parse(_)))
    ));
    let manifest_is_a_list = vec![file("package.json", "[]")];
    assert!(matches!(
        scaffold_app_with(&manifest_is_a_list, "my-app", true, true, true, ""),
        Err(ScaffoldError::Manifest(ManifestError::NotAnObject))
    ));
    let layout_is_binary = vec![
        file("package.json", "{}"),
        SourceEntry { path: "src/routes/__root.tsx".to_string(), is_dir: false, content: vec![0xc3] },
    ];
    assert!(matches!(
        scaffold_app_with(&layout_is_binary, "my-app", true, false, true, ""),
        Err(ScaffoldError::UnreadableLayout)
    ));
    assert!(scaffold_app_with(&layout_is_binary, "my-app", true, true, true, "").is_ok());
}

#[test]
fn scaffold_app_skipped_manifest_is_missing() {
    let template = vec![dir("src"), file("src/lib/db.tsx/package.json", "{}")];
    assert!(matches!(
        scaffold_app_with(&template, "my-app", true, true, false, ""),
        Err(ScaffoldError::MissingManifest)
    ));
}

#[test]
fn scaffold_lib_minimal() {
    let template = vec![
        file("package.json", r#"{"name": "{{project_name}}", "scripts": {"test": "vitest", "build": "tsup"}, "devDependencies": {"typescript": "^5", "vitest": "^3", "react": "^19"}, "peerDependencies": {"react": "^19"}}"#),
        file("tsconfig.json", "{}"),
        file("tsup.config.ts", "export default {}"),
        file("vitest.config.ts", "export default {}"),
        dir("src"),
        file("src/index.ts", "export const name = '{{project_name}}'"),
        dir("src/components"),
        file("src/components/button.tsx", "button"),
        dir("src/styles"),
        file("src/styles/index.css", "css"),
        dir("src/__tests__"),
        file("src/__tests__/index.test.ts", "test"),
    ];
    let tree = scaffold_lib(&template, "my-lib", "typescript", false, false, false).unwrap();
    let paths: Vec<&str> = tree.iter().map(|e| e.path.as_str()).collect();
    assert_eq!(paths, vec!["package.json", "tsconfig.json", "tsup.config.ts", "src", "src/index.ts"]);
    assert_eq!(
        text_of(&tree, "package.json"),
        "{\n  \"devDependencies\": {\n    \"typescript\": \"^5\"\n  },\n  \"name\": \"my-lib\",\n  \"peerDependencies\": {},\n  \"scripts\": {\n    \"build\": \"tsup\"\n  }\n}"
    );
    assert_eq!(text_of(&tree, "src/index.ts"), "export const name = 'my-lib'");

    let tree = scaffold_lib(&template, "my-lib", "typescript", true, false, true).unwrap();
    assert!(has(&tree, "src/components"));
    assert!(has(&tree, "vitest.config.ts"));
    assert!(!has(&tree, "src/styles"));
    assert!(has(&tree, "tsconfig.json"));

    let tree = scaffold_lib(&template, "my-lib", "javascript", true, true, true).unwrap();
    assert!(!has(&tree, "tsconfig.json"));
    let manifest: serde_json::Value = serde_json::from_str(text_of(&tree, "package.json")).unwrap();
    assert!(manifest["devDependencies"].get("typescript").is_none());
    assert_eq!(manifest["devDependencies"]["vitest"], "^3");
}

#[test]
fn copy_filtered_applies_both_lists_by_prefix() {
    let template = vec![
        file("template.json", "{}"),
        file("template.json.bak", "{}"),
        dir("fullstack"),
        file("fullstack/Cargo.toml", "[package]"),
        file("fullstacks.md", "x"),
        file("src/lib/db.ts", "db"),
        file("README.md", "# {{project_name}}"),
    ];
    let out = copy_filtered(&template, "my-app", &["src/lib/db.ts"], &["fullstack", "template.json"]);
    assert_eq!(out, vec![out_file("README.md", "# my-app")]);
    let out = copy_filtered(&template, "my-app", &[], &[]);
    assert_eq!(out.len(), template.len());
}

#[test]
fn scaffold_fullstack_puts_the_front_end_below_web() {
    let mut frontend = app_template();
    frontend.push(dir("fullstack"));
    frontend.push(file("fullstack/Cargo.toml", "[package]\nname = \"{{project_name}}\""));
    let overlay = vec![
        file("Cargo.toml", "[package]\nname = \"{{project_name}}\""),
        file("devforge.toml", "name = \"{{project_name}}\""),
        file("template.json", "{}"),
        dir("src"),
        file("src/main.rs", "fn main() {}"),
    ];
    let secret = "0123456789abcdef".repeat(4);
    let tree = scaffold_fullstack_with(&frontend, &overlay, "my-app", true, false, &secret).unwrap();
    assert_eq!(tree[0], out_dir("web"));
    assert!(has(&tree, "web/package.json"));
    assert!(has(&tree, "web/src/lib/auth.ts"));
    assert!(!has(&tree, "web/src/lib/db.ts"));
    assert!(!has(&tree, "web/src/lib/docs.ts"));
    assert!(!has(&tree, "web/fullstack"));
    assert!(!has(&tree, "web/fullstack/Cargo.toml"));
    assert!(!has(&tree, "web/template.json"));
    assert!(!has(&tree, "template.json"));
    assert_eq!(text_of(&tree, "Cargo.toml"), "[package]\nname = \"my-app\"");
    assert_eq!(text_of(&tree, "devforge.toml"), "name = \"my-app\"");
    assert!(has(&tree, "src/main.rs"));
    assert_eq!(tree.last().unwrap().path, "web/.env");
    assert!(text_of(&tree, "web/.env").contains(&format!("AUTH_SECRET={secret}\n")));
    assert_eq!(text_of(&tree, "web/src/routes/__root.tsx"), LAYOUT);
    let manifest: serde_json::Value =
        serde_json::from_str(text_of(&tree, "web/package.json")).unwrap();
    assert_eq!(manifest["dependencies"]["@auth/core"], "^0.37.4");
    assert!(manifest["dependencies"].get("pg").is_none());
    assert!(manifest["dependencies"].get("gray-matter").is_none());
    assert!(manifest["devDependencies"].get("@types/pg").is_none());
}

#[test]
fn scaffold_fullstack_without_auth() {
    let tree = scaffold_fullstack(&app_template(), &[], "my-app", false, true).unwrap();
    assert!(!has(&tree, "web/.env"));
    assert!(!has(&tree, "web/src/lib/auth.ts"));
    assert!(has(&tree, "web/src/lib/docs.ts"));
    assert_eq!(text_of(&tree, "web/src/routes/__root.tsx"), LAYOUT_WITHOUT);
    assert!(tree.iter().all(|e| e.path == "web" || e.path.starts_with("web/")));
}

#[test]
fn scaffold_fullstack_with_auth_generates_a_secret() {
    let tree = scaffold_fullstack(&app_template(), &[], "my-app", true, true).unwrap();
    let env = text_of(&tree, "web/.env");
    let secret = env.lines().nth(1).unwrap().strip_prefix("AUTH_SECRET=").unwrap();
    assert_eq!(secret.len(), 64);
    assert!(secret.chars().all(|c| matches!(c, '0'..='9' | 'a'..='f')));
}

#[test]
fn scaffold_fullstack_needs_a_manifest() {
    assert!(matches!(
        scaffold_fullstack(&[file("index.html", "x")], &[], "my-app", true, true),
        Err(ScaffoldError::MissingManifest)
    ));
}

#[test]
fn tree_helpers() {
    let mut tree = vec![out_dir("src"), out_file("a.txt", "one"), out_file("a.txt", "two")];
    assert_eq!(find_entry(&tree, "a.txt"), 1);
    assert_eq!(find_entry(&tree, "src"), 0);
    assert_eq!(find_entry(&tree, "b.txt"), 3);
    assert!(matches!(read_text(&tree, "b.txt"), Found::Missing));
    assert!(matches!(read_text(&tree, "src"), Found::NotText));
    match read_text(&tree, "a.txt") {
        Found::Text(at, text) => {
            assert_eq!(at, 1);
            assert_eq!(text, "one");
        }
        _ => panic!("a.txt is text"),
    }
    store_text(&mut tree, 1, "änderung");
    assert_eq!(tree, vec![out_dir("src"), out_file("a.txt", "änderung"), out_file("a.txt", "two")]);
    push_env_file(&mut tree, "web/.env", "s3cret");
    assert_eq!(
        tree.last().unwrap(),
        &out_file("web/.env", "# Auth (GitHub OAuth)\nAUTH_SECRET=s3cret\nAUTH_GITHUB_ID=\nAUTH_GITHUB_SECRET=\n")
    );
}

#[test]
fn rewrite_steps_leave_the_tree_alone_on_failure() {
    let mut tree = vec![out_file("package.json", "nonsense"), out_dir("src/routes/__root.tsx")];
    let before = tree.clone();
    assert!(rewrite_manifest(&mut tree, &[("dependencies", "pg")]).is_err());
    assert_eq!(tree, before);
    assert!(matches!(rewrite_layout(&mut tree), Err(ScaffoldError::UnreadableLayout)));
    assert_eq!(tree, before);
    let mut no_layout = vec![out_file("package.json", "{\"dependencies\": {\"pg\": \"1\", \"x\": \"2\"}}")];
    assert!(rewrite_layout(&mut no_layout).is_ok());
    assert!(rewrite_manifest(&mut no_layout, &[("dependencies", "pg")]).is_ok());
    assert_eq!(no_layout, vec![out_file("package.json", "{\n  \"dependencies\": {\n    \"x\": \"2\"\n  }\n}")]);
}
