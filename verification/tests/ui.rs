use nullslate::cli::default_template_url;
use nullslate::features::{get_files_to_skip, get_lib_files_to_skip};
use nullslate::ui::{
    is_valid_project_name, success_message, success_message_fullstack, success_message_lib,
    Feature, Language, LibFeature, ProjectType,
};

#[test]
fn default_template_url_by_kind() {
    assert_eq!(default_template_url("lib"), "https://github.com/nullslate/lib-template.git");
    assert_eq!(default_template_url("fullstack"), "https://github.com/nullslate/app-template.git");
    assert_eq!(default_template_url("app"), "https://github.com/nullslate/app-template.git");
    assert_eq!(default_template_url(""), "https://github.com/nullslate/app-template.git");
    assert_eq!(default_template_url("Lib"), "https://github.com/nullslate/app-template.git");
}

#[test]
fn project_type_names() {
    assert_eq!(ProjectType::App.as_str(), "app");
    assert_eq!(ProjectType::Fullstack.as_str(), "fullstack");
    assert_eq!(ProjectType::Lib.as_str(), "lib");
    assert_eq!(default_template_url(ProjectType::Lib.as_str()), "https://github.com/nullslate/lib-template.git");
}

#[test]
fn feature_tables() {
    assert_eq!(Feature::Db.skip_rules(), vec!["src/lib/db.ts"]);
    assert_eq!(Feature::Auth.manifest_entries(), vec![("dependencies", "@auth/core")]);
    assert_eq!(Feature::Db.manifest_entries(), vec![("dependencies", "pg"), ("devDependencies", "@types/pg")]);
    assert_eq!(Feature::Docs.manifest_entries().len(), 5);
    assert_eq!(LibFeature::React.skip_rules(), vec!["src/components"]);
    assert_eq!(LibFeature::Css.skip_rules(), vec!["src/styles"]);
    assert_eq!(LibFeature::Testing.skip_rules(), vec!["vitest.config.ts", "src/__tests__"]);
    assert_eq!(LibFeature::Testing.manifest_entries().last(), Some(&("scripts", "test")));
    assert_eq!(Language::from_name("javascript"), Language::JavaScript);
    assert_eq!(Language::from_name("typescript"), Language::TypeScript);
    assert_eq!(Language::from_name("JavaScript"), Language::TypeScript);
    assert_eq!(Language::JavaScript.skip_rules(), vec!["tsconfig.json"]);
    assert!(Language::TypeScript.skip_rules().is_empty());
    assert_eq!(Language::JavaScript.manifest_entries(), vec![("devDependencies", "typescript")]);
}

#[test]
fn skip_rules_are_the_tables_of_what_is_off() {
    let mut expected = Feature::Docs.skip_rules();
    expected.extend(Feature::Db.skip_rules());
    assert_eq!(get_files_to_skip(false, true, false), expected);
    let mut expected = Language::JavaScript.skip_rules();
    expected.extend(LibFeature::Css.skip_rules());
    assert_eq!(get_lib_files_to_skip("javascript", true, false, true), expected);
}

#[test]
fn is_valid_project_name_accepts_lowercase_names() {
    for name in ["a", "0", "my-app", "app2", "a-b-c", "a--b", "9lives", "ab"] {
        assert!(is_valid_project_name(name), "{name}");
    }
}

#[test]
fn is_valid_project_name_rejects_other_names() {
    for name in ["", "-", "-app", "app-", "My-App", "my_app", "my app", "my.app", "app\n", "é", "a/b"] {
        assert!(!is_valid_project_name(name), "{name:?}");
    }
}

#[test]
fn success_message_exact_text() {
    assert_eq!(
        success_message("my-app", "./my-app", false),
        "Created my-app at ./my-app\n\n  Next steps:\n    cd my-app\n    bun dev"
    );
    assert_eq!(
        success_message("my-app", "./my-app", true),
        "Created my-app at ./my-app\n\n  Next steps:\n    cd my-app\n    bun install\n    bun dev"
    );
}

#[test]
fn success_message_fullstack_exact_text() {
    assert_eq!(
        success_message_fullstack("my-app", "/tmp/out"),
        "Created my-app at /tmp/out\n\n  Next steps:\n    cd my-app\n    ns dev"
    );
}

#[test]
fn success_message_lib_exact_text() {
    assert_eq!(
        success_message_lib("my-lib", "my-lib", false),
        "Created my-lib at my-lib\n\n  Next steps:\n    cd my-lib\n    bun run build"
    );
    assert_eq!(
        success_message_lib("my-lib", "my-lib", true),
        "Created my-lib at my-lib\n\n  Next steps:\n    cd my-lib\n    bun install\n    bun run build"
    );
}
