use fetching_core::validation::sanitize;

#[test]
fn test_sanitize_empty() {
    assert_eq!(sanitize(""), "");
}

#[test]
fn test_sanitize_no_special() {
    assert_eq!(sanitize("Simple"), "Simple");
}

#[test]
fn test_sanitize_spaces_and_dashes() {
    assert_eq!(sanitize("Hello World-Test"), "Hello_World_Test");
}

#[test]
fn test_sanitize_special_characters() {
    assert_eq!(
        sanitize("File:Name?With*Special<Chars>"),
        "File_Name_With_Special_Chars"
    );
}

#[test]
fn test_sanitize_leading_trailing_underscores() {
    assert_eq!(sanitize("_leading_and_trailing_"), "leading_and_trailing");
}

#[test]
fn test_sanitize_keeps_periods() {
    assert_eq!(sanitize("file.name.txt"), "file.name.txt");
}

#[test]
fn test_sanitize_unicode_characters() {
    assert_eq!(sanitize("café_résumé naïve"), "café_résumé_naïve");
}

#[test]
fn test_sanitize_exclamation_marks() {
    assert_eq!(sanitize("Wow! This is great!"), "Wow_This_is_great");
}

#[test]
fn test_sanitize_single_quotes() {
    assert_eq!(sanitize("Don't worry"), "Don_t_worry");
}

#[test]
fn validation_test_sanitize_collapses_consecutive_underscores() {
    assert_eq!(sanitize("a--b__c   d"), "a_b_c_d");
}

#[test]
fn validation_test_sanitize_only_invalid_chars() {
    assert_eq!(sanitize("!@#$%^&*()"), "");
}

#[test]
fn validation_test_sanitize_mixed_invalid_chars() {
    assert_eq!(sanitize("a!b@c#d$e%f^g&h*i(j)k"), "a_b_c_d_e_f_g_h_i_j_k");
}

#[test]
fn validation_test_sanitize_preserves_dots() {
    assert_eq!(sanitize("file.txt"), "file.txt");
}

#[test]
fn validation_test_sanitize_removes_invalid_chars() {
    assert_eq!(
        sanitize("file/name:with?invalid*chars"),
        "file_name_with_invalid_chars"
    );
}

#[test]
fn validation_test_sanitize_replaces_spaces_and_dashes() {
    assert_eq!(sanitize("hello world-test case"), "hello_world_test_case");
}

#[test]
fn validation_test_sanitize_trims_underscores() {
    assert_eq!(sanitize("_hello_world_"), "hello_world");
}

#[test]
fn validation_test_sanitize_handles_unicode() {
    assert_eq!(sanitize("naïve café résumé"), "naïve_café_résumé");
}

#[test]
fn test_metadata_test_sanitize_removes_invalid_chars() {
    assert_eq!(sanitize("Track/Name"), "Track_Name");
    assert_eq!(sanitize("Track:Name"), "Track_Name");
    assert_eq!(sanitize("Track\\Name"), "Track_Name");
    assert_eq!(sanitize("Track*Name"), "Track_Name");
    assert_eq!(sanitize("Track?Name"), "Track_Name");
    assert_eq!(sanitize("Track\"Name"), "Track_Name");
    assert_eq!(sanitize("Track<Name>"), "Track_Name");
    assert_eq!(sanitize("Track|Name"), "Track_Name");
}

#[test]
fn test_metadata_test_sanitize_replaces_spaces_and_dashes() {
    assert_eq!(sanitize("Valid Track Name"), "Valid_Track_Name");
    assert_eq!(sanitize("Track-01"), "Track_01");
    assert_eq!(sanitize("Track (Remix)"), "Track_Remix");
    assert_eq!(sanitize("Track_123"), "Track_123");
}

#[test]
fn test_metadata_test_sanitize_handles_unicode() {
    assert_eq!(sanitize("Café"), "Café");
    assert_eq!(sanitize("Ñoño"), "Ñoño");
    assert_eq!(sanitize("音楽"), "音楽");
}

#[test]
fn test_sanitize_empty_string() {
    assert_eq!(sanitize(""), "");
}

#[test]
fn test_metadata_test_sanitize_only_invalid_chars() {
    assert_eq!(sanitize("///"), "");
    assert_eq!(sanitize("***"), "");
    assert_eq!(sanitize("<>|"), "");
}

#[test]
fn test_metadata_test_sanitize_trims_underscores() {
    assert_eq!(sanitize("  Track Name  "), "Track_Name");
    assert_eq!(sanitize("__Track__"), "Track");
}

#[test]
fn test_metadata_test_sanitize_mixed_invalid_chars() {
    assert_eq!(sanitize("Track/Name:Remix?"), "Track_Name_Remix");
}

#[test]
fn test_metadata_test_sanitize_preserves_dots() {
    assert_eq!(sanitize("Track.Name.v2"), "Track.Name.v2");
}

#[test]
fn test_metadata_test_sanitize_collapses_consecutive_underscores() {
    assert_eq!(sanitize("Track___Name"), "Track_Name");
    assert_eq!(sanitize("A  B  C"), "A_B_C");
}

#[test]
fn sanitize_is_idempotent_on_examples() {
    for s in ["a--b__c   d", "  Track Name  ", "!@#", "naïve café", "x.y"] {
        let once = sanitize(s);
        assert_eq!(sanitize(&once), once);
    }
}
