use hya_server::auth::{
    auth_file_name, complete_oauth, credential_token, list_provider_auth, oauth_file_body,
    provider_id_of_entry,
    remove_provider_auth, set_provider_auth, start_oauth, token_file_body, validate_provider_id,
    yaml_escape, OauthCredential, ProviderSecret,
};
use hya_server::error::Code;

fn names(list: &[&str]) -> Vec<String> {
    list.iter().map(|s| s.to_string()).collect()
}

#[test]
fn provider_ids_accept_alphanumerics_dashes_and_underscores() {
    assert!(validate_provider_id("testprovider").is_ok());
    assert!(validate_provider_id("open-ai_2").is_ok());
    let err = validate_provider_id("bad..id").unwrap_err();
    assert_eq!(err.code, Code::InvalidArgument);
    assert_eq!(err.message, "invalid provider id");
    assert_eq!(err.http_status(), 400);
    assert!(validate_provider_id("").is_err());
    assert!(validate_provider_id("a/b").is_err());
    assert!(validate_provider_id("a.b").is_err());
    assert!(validate_provider_id("caf\u{e9}").is_err());
}

#[test]
fn yaml_escape_escapes_backslash_quote_and_newline() {
    assert_eq!(yaml_escape("plain"), "plain");
    assert_eq!(yaml_escape("a\\b\"c\nd"), "a\\\\b\\\"c\\nd");
    assert!(!yaml_escape("x\ny\n").contains('\n'));
}

#[test]
fn token_file_body_trims_and_quotes_the_token() {
    assert_eq!(token_file_body("secret-key"), "token: \"secret-key\"\n");
    assert_eq!(token_file_body("  \tk\"ey \n"), "token: \"k\\\"ey\"\n");
}

#[test]
fn set_provider_auth_stores_the_api_key_under_the_provider_file() {
    let secret = Some(ProviderSecret::ApiKey("secret-key".to_string()));
    let write = set_provider_auth("testprovider", &secret).unwrap();
    assert_eq!(write.file_name, "testprovider.yaml");
    assert_eq!(write.temp_file_name, ".testprovider.yaml.tmp");
    assert_eq!(write.body, "token: \"secret-key\"\n");
    assert!(write.body.contains("secret-key"));
}

#[test]
fn set_provider_auth_keeps_oauth_refresh_token_and_expiry() {
    let secret = Some(ProviderSecret::Oauth(OauthCredential {
        access_token: " at ".to_string(),
        refresh_token: "rt".to_string(),
        expires_at: 1700000000,
    }));
    let write = set_provider_auth("anthropic", &secret).unwrap();
    assert_eq!(write.file_name, "anthropic.yaml");
    assert_eq!(write.temp_file_name, ".anthropic.yaml.tmp");
    assert_eq!(
        write.body,
        "type: oauth\naccess_token: \"at\"\nrefresh_token: \"rt\"\nexpires_at: \"2023-11-14T22:13:20Z\"\n"
    );
}

#[test]
fn oauth_files_skip_unknown_refresh_token_and_expiry() {
    let bare = OauthCredential {
        access_token: "at-1".to_string(),
        refresh_token: "  ".to_string(),
        expires_at: 0,
    };
    assert_eq!(oauth_file_body(&bare), "type: oauth\naccess_token: \"at-1\"\n");
    let past = OauthCredential {
        access_token: "a\"b".to_string(),
        refresh_token: String::new(),
        expires_at: -5,
    };
    assert_eq!(oauth_file_body(&past), "type: oauth\naccess_token: \"a\\\"b\"\nexpires_at: \"1969-12-31T23:59:55Z\"\n");
    let blank = Some(ProviderSecret::Oauth(OauthCredential {
        access_token: " ".to_string(),
        refresh_token: "rt".to_string(),
        expires_at: 1,
    }));
    assert_eq!(set_provider_auth("p", &blank).unwrap_err().message, "credential payload is empty");
}

#[test]
fn set_provider_auth_rejects_bad_ids_and_payloads() {
    let key = Some(ProviderSecret::ApiKey("x".to_string()));
    let err = set_provider_auth("bad..id", &key).unwrap_err();
    assert_eq!(err.code, Code::InvalidArgument);
    assert_eq!(err.message, "invalid provider id");
    let err = set_provider_auth("p", &None).unwrap_err();
    assert_eq!(err.message, "missing credential payload");
    let blank = Some(ProviderSecret::ApiKey(" \t\n".to_string()));
    let err = set_provider_auth("p", &blank).unwrap_err();
    assert_eq!(err.code, Code::InvalidArgument);
    assert_eq!(err.message, "credential payload is empty");
    assert_eq!(credential_token(&blank).unwrap_err().message, "credential payload is empty");
    let keyed = Some(ProviderSecret::ApiKey(" k ".to_string()));
    assert_eq!(credential_token(&keyed).unwrap(), " k ");
}

#[test]
fn remove_provider_auth_targets_the_same_file() {
    assert_eq!(remove_provider_auth("testprovider").unwrap(), "testprovider.yaml");
    assert_eq!(auth_file_name("testprovider"), "testprovider.yaml");
    assert_eq!(remove_provider_auth("../x").unwrap_err().code, Code::InvalidArgument);
}

#[test]
fn oauth_flows_answer_unavailable() {
    let err = start_oauth("openai");
    assert_eq!(err.code, Code::Unavailable);
    assert_eq!(err.http_status(), 503);
    assert_eq!(
        err.message,
        "provider oauth start is not wired for openai; use the launcher auth command"
    );
    let err = complete_oauth("openai");
    assert_eq!(
        err.message,
        "provider oauth completion is not wired for openai; use the launcher auth command"
    );
    assert_eq!(start_oauth("bad..id").code, Code::InvalidArgument);
    assert_eq!(complete_oauth("").code, Code::InvalidArgument);
}

#[test]
fn entry_names_map_to_provider_ids() {
    assert_eq!(provider_id_of_entry("testprovider.yaml"), Some("testprovider".to_string()));
    assert_eq!(provider_id_of_entry("a.b.yaml"), Some("a.b".to_string()));
    assert_eq!(provider_id_of_entry(".hidden.yaml"), None);
    assert_eq!(provider_id_of_entry(".yaml"), None);
    assert_eq!(provider_id_of_entry("notes.txt"), None);
    assert_eq!(provider_id_of_entry("yaml"), None);
    assert_eq!(provider_id_of_entry("x.yml"), None);
    assert_eq!(provider_id_of_entry("x.YAML"), None);
}

#[test]
fn listing_is_sorted_and_skips_other_entries() {
    let listed = list_provider_auth(&names(&[
        "zeta.yaml",
        "notes.txt",
        ".hidden.yaml",
        "alpha.yaml",
        "Beta.yaml",
        "a.b.yaml",
    ]));
    assert_eq!(listed, names(&["Beta", "a.b", "alpha", "zeta"]));
    assert!(list_provider_auth(&Vec::new()).is_empty());
}

#[test]
fn a_stored_credential_is_listed_under_its_id() {
    for id in ["testprovider", "a", "open-ai_2"] {
        let file = auth_file_name(id);
        assert_eq!(list_provider_auth(&vec![file]), names(&[id]));
    }
}

#[test]
fn every_quote_of_an_escaped_token_is_escaped() {
    let escaped = yaml_escape("a\"b\\\"c\\\\\"");
    assert_eq!(escaped, "a\\\"b\\\\\\\"c\\\\\\\\\\\"");
    let chars: Vec<char> = escaped.chars().collect();
    for (i, c) in chars.iter().enumerate() {
        if *c == '"' {
            let run = chars[..i].iter().rev().take_while(|c| **c == '\\').count();
            assert_eq!(run % 2, 1);
        }
    }
}
