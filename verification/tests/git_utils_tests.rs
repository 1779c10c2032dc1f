use shtt::git_utils::{
    branch_ref_name, branch_refspec, check_email_input, check_name_input, choose_credential,
    extract_repo_name, is_valid_email, origin_branch_name, release_tag_message, tag_ref_name,
    tag_refspec, CredentialChoice, EmailInputError, NameInputError, RepoNameError,
};

#[test]
fn test_email_validation() {
    // Valid emails
    assert!(is_valid_email("user@example.com"));
    assert!(is_valid_email("test.email+tag@example.co.uk"));
    assert!(is_valid_email("user123@domain-name.org"));
    assert!(is_valid_email("a@b.co"));
    assert!(is_valid_email("user_name@example.com"));
    assert!(is_valid_email("user+tag@example.com"));

    // Invalid emails
    assert!(!is_valid_email("")); // Empty
    assert!(!is_valid_email("@")); // Just @
    assert!(!is_valid_email("user@")); // Missing domain
    assert!(!is_valid_email("@example.com")); // Missing local part
    assert!(!is_valid_email("user@@example.com")); // Double @
    assert!(!is_valid_email("user@example@com")); // Multiple @
    assert!(!is_valid_email("user..name@example.com")); // Consecutive dots in local
    assert!(!is_valid_email("user@example..com")); // Consecutive dots in domain
    assert!(!is_valid_email(".user@example.com")); // Leading dot in local
    assert!(!is_valid_email("user.@example.com")); // Trailing dot in local
    assert!(!is_valid_email("user@.example.com")); // Leading dot in domain
    assert!(!is_valid_email("user@example.com.")); // Trailing dot in domain
    assert!(!is_valid_email("user@example")); // No dot in domain
    assert!(!is_valid_email("a@b")); // Domain too short
}

#[test]
fn email_characters_are_restricted() {
    assert!(!is_valid_email("us er@example.com"));
    assert!(!is_valid_email("usér@example.com"));
    assert!(!is_valid_email("user!@example.com"));
    assert!(is_valid_email("USER-1@EXAMPLE.COM"));
}

#[test]
fn prompt_input_checks() {
    assert_eq!(check_name_input(""), Err(NameInputError::Empty));
    assert_eq!(check_name_input("J"), Err(NameInputError::TooShort));
    assert_eq!(check_name_input("é"), Ok(()));
    assert_eq!(check_name_input("John Doe"), Ok(()));
    assert_eq!(check_email_input(""), Err(EmailInputError::Empty));
    assert_eq!(check_email_input("john"), Err(EmailInputError::Invalid));
    assert_eq!(check_email_input("john@example.com"), Ok(()));
}

#[test]
fn repo_names_from_urls() {
    assert_eq!(extract_repo_name("https://github.com/user/repo.git").unwrap(), "repo");
    assert_eq!(extract_repo_name("git@github.com:user/repo.git").unwrap(), "repo");
    assert_eq!(extract_repo_name("https://github.com/user/repo").unwrap(), "repo");
    assert_eq!(extract_repo_name("https://github.com/user/repo/").unwrap(), "repo");
    assert_eq!(extract_repo_name("https://github.com/user/repo.git//").unwrap(), "repo");
    assert_eq!(extract_repo_name("repo").unwrap(), "repo");
    assert_eq!(extract_repo_name("host:a.git.git").unwrap(), "a.git");
    assert_eq!(extract_repo_name("https://github.com/user/").unwrap(), "user");
    assert_eq!(
        extract_repo_name("git@github.com:/"),
        Err(RepoNameError::InvalidUrl("git@github.com:".to_string()))
    );
    assert_eq!(
        extract_repo_name("https://host/.git"),
        Err(RepoNameError::InvalidUrl("https://host/".to_string()))
    );
    assert_eq!(extract_repo_name(""), Err(RepoNameError::InvalidUrl("".to_string())));
    assert_eq!(extract_repo_name("///"), Err(RepoNameError::InvalidUrl("".to_string())));
}

#[test]
fn reference_names_and_refspecs() {
    assert_eq!(branch_ref_name("main"), "refs/heads/main");
    assert_eq!(tag_ref_name("v1.2.3"), "refs/tags/v1.2.3");
    assert_eq!(origin_branch_name("main"), "origin/main");
    assert_eq!(branch_refspec("main"), "refs/heads/main:refs/heads/main");
    assert_eq!(tag_refspec("v0.0.1"), "refs/tags/v0.0.1:refs/tags/v0.0.1");
    assert_eq!(release_tag_message("v1.2.4"), "Release v1.2.4");
}

#[test]
fn credential_choice() {
    assert_eq!(choose_credential(true, true, true, true), CredentialChoice::Helper);
    assert_eq!(choose_credential(true, false, true, true), CredentialChoice::SshAgent);
    assert_eq!(choose_credential(false, true, true, true), CredentialChoice::SshAgent);
    assert_eq!(choose_credential(false, false, true, false), CredentialChoice::Default);
    assert_eq!(choose_credential(true, false, false, true), CredentialChoice::Default);
}
