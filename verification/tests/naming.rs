use r2e_macros::naming::{camel_to_delimited, capitalize, humanize_ident, variant_tag_name, RenameAll};

#[test]
fn camel_splits_words() {
    assert_eq!(camel_to_delimited("PassThrough", '_'), "pass_through");
    assert_eq!(camel_to_delimited("S3", '_'), "s3");
    assert_eq!(camel_to_delimited("Filesystem", '_'), "filesystem");
}

#[test]
fn camel_keeps_acronyms_together() {
    assert_eq!(camel_to_delimited("HTTPServer", '_'), "http_server");
    assert_eq!(camel_to_delimited("MyHTTP", '-'), "my-http");
}

#[test]
fn camel_breaks_after_digit() {
    assert_eq!(camel_to_delimited("Sha256Hash", '_'), "sha256_hash");
}

#[test]
fn camel_lowercase_input_is_unchanged() {
    assert_eq!(camel_to_delimited("already_snake", '_'), "already_snake");
    assert_eq!(camel_to_delimited("", '_'), "");
}

#[test]
fn humanize_splits_words() {
    assert_eq!(humanize_ident("UserNotFound"), "User not found");
    assert_eq!(humanize_ident("Conflict"), "Conflict");
    assert_eq!(humanize_ident("X"), "X");
}

#[test]
fn capitalize_first_letter() {
    assert_eq!(capitalize("user"), "User");
    assert_eq!(capitalize(""), "");
    assert_eq!(capitalize("éclair"), "Éclair");
    assert_eq!(capitalize("ßx"), "SSx");
}

#[test]
fn rename_all_parses_serde_spellings() {
    assert_eq!(RenameAll::parse("lowercase"), Ok(RenameAll::Lower));
    assert_eq!(RenameAll::parse("UPPERCASE"), Ok(RenameAll::Upper));
    assert_eq!(RenameAll::parse("PascalCase"), Ok(RenameAll::Pascal));
    assert_eq!(RenameAll::parse("camelCase"), Ok(RenameAll::Camel));
    assert_eq!(RenameAll::parse("snake_case"), Ok(RenameAll::Snake));
    assert_eq!(RenameAll::parse("SCREAMING_SNAKE_CASE"), Ok(RenameAll::ScreamingSnake));
    assert_eq!(RenameAll::parse("kebab-case"), Ok(RenameAll::Kebab));
    assert_eq!(RenameAll::parse("SCREAMING-KEBAB-CASE"), Ok(RenameAll::ScreamingKebab));
}

#[test]
fn rename_all_refuses_unknown_spelling() {
    assert_eq!(
        RenameAll::parse("Train-Case"),
        Err("unsupported #[serde(rename_all = \"Train-Case\")] for #[derive(Params)] — expected one of lowercase, UPPERCASE, PascalCase, camelCase, snake_case, SCREAMING_SNAKE_CASE, kebab-case, SCREAMING-KEBAB-CASE".to_string())
    );
}

#[test]
fn rename_all_applies_each_convention() {
    assert_eq!(RenameAll::Lower.apply("user_id"), "user_id");
    assert_eq!(RenameAll::Upper.apply("user_id"), "USER_ID");
    assert_eq!(RenameAll::Pascal.apply("user_id"), "UserId");
    assert_eq!(RenameAll::Camel.apply("user_id"), "userId");
    assert_eq!(RenameAll::Snake.apply("user_id"), "user_id");
    assert_eq!(RenameAll::ScreamingSnake.apply("user_id"), "USER_ID");
    assert_eq!(RenameAll::Kebab.apply("user_id"), "user-id");
    assert_eq!(RenameAll::ScreamingKebab.apply("user_id"), "USER-ID");
}

#[test]
fn rename_all_drops_empty_words() {
    assert_eq!(RenameAll::Camel.apply("__page__size_"), "pageSize");
    assert_eq!(RenameAll::Pascal.apply("a__b"), "AB");
    assert_eq!(RenameAll::Camel.apply("single"), "single");
}

#[test]
fn tag_name_defaults_to_snake_case() {
    assert_eq!(variant_tag_name("PassThrough", None), Ok("pass_through".to_string()));
}

#[test]
fn tag_name_styles() {
    let snake = "snake_case".to_string();
    let kebab = "kebab-case".to_string();
    let lower = "lowercase".to_string();
    assert_eq!(variant_tag_name("PassThrough", Some(&snake)), Ok("pass_through".to_string()));
    assert_eq!(variant_tag_name("PassThrough", Some(&kebab)), Ok("pass-through".to_string()));
    assert_eq!(variant_tag_name("PassThrough", Some(&lower)), Ok("passthrough".to_string()));
}

#[test]
fn tag_name_refuses_other_styles() {
    let camel = "camelCase".to_string();
    assert_eq!(
        variant_tag_name("PassThrough", Some(&camel)),
        Err("unsupported rename_all style `camelCase` — expected `snake_case`, `kebab-case`, or `lowercase`".to_string())
    );
}

#[test]
fn ascii_examples_of_the_conversions() {
    assert_eq!(camel_to_delimited("PassThrough", '_'), "pass_through");
    assert_eq!(camel_to_delimited("S3", '_'), "s3");
    assert_eq!(camel_to_delimited("HTTPServer", '_'), "http_server");
    assert_eq!(camel_to_delimited("S3Bucket", '-'), "s3-bucket");
    assert_eq!(humanize_ident("NotFound"), "Not found");
    assert_eq!(humanize_ident("InternalServerError"), "Internal server error");
    assert_eq!(humanize_ident("Timeout"), "Timeout");
    assert_eq!(capitalize("user"), "User");
    assert_eq!(capitalize("id"), "Id");
    assert_eq!(capitalize(""), "");
    let f = "user_id";
    assert_eq!(RenameAll::Camel.apply(f), "userId");
    assert_eq!(RenameAll::Pascal.apply(f), "UserId");
    assert_eq!(RenameAll::ScreamingSnake.apply(f), "USER_ID");
    assert_eq!(RenameAll::Kebab.apply(f), "user-id");
    assert_eq!(RenameAll::ScreamingKebab.apply(f), "USER-ID");
    assert_eq!(RenameAll::Snake.apply(f), "user_id");
}
