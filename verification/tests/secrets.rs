use nullslate::layout::cleanup_layout_for_no_auth;
use nullslate::secret::{env_file, generate_env_file, generate_random_secret};
use nullslate::text::{hex_encode, remove_lines, replace};

#[test]
fn generate_random_secret_length() {
    let secret = generate_random_secret();
    assert_eq!(secret.len(), 64); // 32 bytes * 2 hex chars
}

#[test]
fn generate_random_secret_uniqueness() {
    let a = generate_random_secret();
    let b = generate_random_secret();
    assert_ne!(a, b);
}

#[test]
fn generate_random_secret_is_lowercase_hex() {
    for _ in 0..16 {
        let secret = generate_random_secret();
        assert_eq!(secret.chars().count(), 64);
        assert!(secret.chars().all(|c| matches!(c, '0'..='9' | 'a'..='f')));
    }
}

#[test]
fn hex_encode_exact_values() {
    assert_eq!(hex_encode(&[]), "");
    assert_eq!(hex_encode(&[0x00]), "00");
    assert_eq!(hex_encode(&[0x0f, 0xf0, 0xff]), "0ff0ff");
    assert_eq!(hex_encode(&[0x01, 0x23, 0x45, 0x67, 0x89, 0xab, 0xcd, 0xef]), "0123456789abcdef");
    assert_eq!(hex_encode(&[0xde, 0xad, 0xbe, 0xef]), "deadbeef");
}

#[test]
fn env_file_exact_text() {
    let secret = "00112233445566778899aabbccddeeff00112233445566778899aabbccddeeff";
    assert_eq!(
        env_file(secret),
        "# Auth (GitHub OAuth)\nAUTH_SECRET=00112233445566778899aabbccddeeff00112233445566778899aabbccddeeff\nAUTH_GITHUB_ID=\nAUTH_GITHUB_SECRET=\n"
    );
}

#[test]
fn generate_env_file_holds_a_secret_and_empty_identifiers() {
    let content = generate_env_file();
    let lines: Vec<&str> = content.lines().collect();
    assert_eq!(lines.len(), 4);
    assert_eq!(lines[0], "# Auth (GitHub OAuth)");
    let secret = lines[1].strip_prefix("AUTH_SECRET=").unwrap();
    assert_eq!(secret.len(), 64);
    assert!(secret.chars().all(|c| matches!(c, '0'..='9' | 'a'..='f')));
    assert_eq!(lines[2], "AUTH_GITHUB_ID=");
    assert_eq!(lines[3], "AUTH_GITHUB_SECRET=");
    assert!(content.ends_with('\n'));
    assert!(!content.contains("DATABASE_URL"));
    assert!(!content.contains("JWT_SECRET"));
}

#[test]
fn generate_env_file_differs_between_calls() {
    assert_ne!(generate_env_file(), generate_env_file());
}

const LAYOUT: &str = "import { Outlet } from \"@tanstack/react-router\"\nimport { SessionProvider } from \"@/components/session-provider\"\n\nfunction RootComponent() {\n  return (\n    <html>\n      <body>\n        <SessionProvider>\n          <Header />\n          <Outlet />\n        </SessionProvider>\n      </body>\n    </html>\n  )\n}\n";

#[test]
fn cleanup_layout_removes_import_and_markers_and_keeps_what_is_between() {
    let expected = "import { Outlet } from \"@tanstack/react-router\"\n\nfunction RootComponent() {\n  return (\n    <html>\n      <body>\n          <Header />\n          <Outlet />\n      </body>\n    </html>\n  )\n}\n";
    assert_eq!(cleanup_layout_for_no_auth(LAYOUT), expected);
}

#[test]
fn cleanup_layout_without_markers_is_unchanged() {
    let plain = "import { Outlet } from \"@tanstack/react-router\"\n\nexport const Route = 1\n";
    assert_eq!(cleanup_layout_for_no_auth(plain), plain);
    assert_eq!(cleanup_layout_for_no_auth(""), "");
}

#[test]
fn cleanup_layout_needs_the_exact_lines() {
    let reformatted = "import { SessionProvider } from '@/components/session-provider';\n    <SessionProvider>\n      <Outlet />\n    </SessionProvider>\n";
    assert_eq!(cleanup_layout_for_no_auth(reformatted), reformatted);
}

#[test]
fn cleanup_layout_leaves_a_tag_that_is_indented_deeper() {
    let deeper = "            <SessionProvider>\n";
    assert_eq!(cleanup_layout_for_no_auth(deeper), deeper);
    let block = "            <SessionProvider>\n              <Outlet />\n            </SessionProvider>\n";
    assert_eq!(cleanup_layout_for_no_auth(block), block);
    let nested = "        <SessionProvider>\n            <SessionProvider>\n          <Outlet />\n            </SessionProvider>\n        </SessionProvider>\n";
    assert_eq!(
        cleanup_layout_for_no_auth(nested),
        "            <SessionProvider>\n          <Outlet />\n            </SessionProvider>\n"
    );
}

#[test]
fn cleanup_layout_matches_whole_lines_only() {
    for unchanged in [
        "x        <SessionProvider>\n",
        "        <SessionProvider> \n",
        "        <SessionProvider>",
        "        <SessionProvider>\r\n",
        "// import { SessionProvider } from \"@/components/session-provider\"\n",
        "import { SessionProvider } from \"@/components/session-provider\"",
        "import { SessionProvider } from \"@/components/session-provider\";\n",
        "         </SessionProvider>\n",
        "\n\n",
    ] {
        assert_eq!(cleanup_layout_for_no_auth(unchanged), unchanged, "{unchanged:?}");
    }
    assert_eq!(cleanup_layout_for_no_auth("        <SessionProvider>\n"), "");
    assert_eq!(
        cleanup_layout_for_no_auth("a\n        </SessionProvider>\nb"),
        "a\nb"
    );
    assert_eq!(
        cleanup_layout_for_no_auth("        <SessionProvider>\n        <SessionProvider>\nlast"),
        "last"
    );
}

#[test]
fn cleanup_layout_is_idempotent() {
    let once = cleanup_layout_for_no_auth(LAYOUT);
    assert_eq!(cleanup_layout_for_no_auth(&once), once);
}

#[test]
fn replace_exact_values() {
    assert_eq!(replace("aaa", "aa", "b"), "ba");
    assert_eq!(replace("abcabc", "bc", ""), "aa");
    assert_eq!(replace("abc", "", "x"), "abc");
    assert_eq!(replace("abc", "abcd", "x"), "abc");
    assert_eq!(replace("abab", "ab", "abab"), "abababab");
}

#[test]
fn cleanup_layout_is_what_is_left_of_the_lines() {
    let samples = [
        LAYOUT,
        "",
        "\n",
        "            <SessionProvider>\n<p/>\n            </SessionProvider>\n",
        "        <SessionProvider>\n        <SessionProvider>\n        </SessionProvider>\n",
        "import { SessionProvider } from \"@/components/session-provider\"",
        "x        <SessionProvider>\ny        </SessionProvider>\nz",
    ];
    let markers = [
        "import { SessionProvider } from \"@/components/session-provider\"\n",
        "        <SessionProvider>\n",
        "        </SessionProvider>\n",
    ];
    for sample in samples {
        let expected: String =
            sample.split_inclusive('\n').filter(|line| !markers.contains(line)).collect();
        assert_eq!(cleanup_layout_for_no_auth(sample), expected);
    }
}

#[test]
fn remove_lines_exact_values() {
    assert_eq!(remove_lines("a\nb\nc\n", &["b\n"]), "a\nc\n");
    assert_eq!(remove_lines("a\nb\nc", &["c"]), "a\nb\n");
    assert_eq!(remove_lines("a\nb\nc", &["c\n", "a"]), "a\nb\nc");
    assert_eq!(remove_lines("a\n\na\n", &["a\n"]), "\n");
    assert_eq!(remove_lines("a\n\na\n", &["\n"]), "a\na\n");
    assert_eq!(remove_lines("ab\n", &["a", "b\n"]), "ab\n");
    assert_eq!(remove_lines("é→\nx", &["é→\n"]), "x");
    assert_eq!(remove_lines("", &["\n"]), "");
    assert_eq!(remove_lines("a\n", &[]), "a\n");
}
