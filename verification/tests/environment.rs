use macgyver_rs::errors::MacgyverCmdErrors;
use macgyver_rs::{check_gitlab_token, check_secret, context_label, get_k8s_env, PASSCHECK};

#[test]
fn context_is_shown_in_upper_case() {
    assert_eq!(get_k8s_env(Ok(Some("prod-eu".to_string()))), Ok("PROD-EU".to_string()));
    assert_eq!(get_k8s_env(Ok(Some("straße".to_string()))), Ok("STRASSE".to_string()));
}

#[test]
fn missing_context_is_not_available() {
    assert_eq!(get_k8s_env(Ok(None)), Ok("N/A".to_string()));
}

#[test]
fn unreadable_configuration_is_a_failure() {
    assert_eq!(
        get_k8s_env(Err("no such file".to_string())),
        Err(MacgyverCmdErrors::KubeConfig("no such file".to_string()))
    );
}

#[test]
fn context_label_keeps_the_given_name() {
    assert_eq!(context_label(Some("DEV".to_string())), "DEV");
    assert_eq!(context_label(None), "N/A");
}

#[test]
fn pass_phrase_unlocks() {
    assert_eq!(PASSCHECK, "This-is-my-pass-phrase");
    assert_eq!(check_secret(Some(PASSCHECK.to_string())), Ok(()));
}

#[test]
fn wrong_or_missing_pass_phrase_is_refused() {
    let refused = Err(MacgyverCmdErrors::CliParameterMissing(
        "Missing/Invalid env var MACGYVER_CMD_SECRET_CHECK".to_string(),
    ));
    assert_eq!(check_secret(None), refused);
    assert_eq!(check_secret(Some("this-is-my-pass-phrase".to_string())), refused);
    assert_eq!(check_secret(Some(String::new())), refused);
    assert_eq!(check_secret(Some("This-is-my-pass-phrase ".to_string())), refused);
}

#[test]
fn gitlab_token_is_handed_on() {
    assert_eq!(check_gitlab_token(Some("glpat-1".to_string())), Ok("glpat-1".to_string()));
    assert_eq!(check_gitlab_token(Some(String::new())), Ok(String::new()));
}

#[test]
fn missing_gitlab_token_is_a_failure() {
    assert_eq!(
        check_gitlab_token(None),
        Err(MacgyverCmdErrors::CliParameterMissing(
            "Missing env var MACGYVER_CMD_GITLAB_TOKEN".to_string()
        ))
    );
}

#[test]
fn each_failure_has_its_message() {
    let cause = || "boom".to_string();
    let cases = vec![
        (MacgyverCmdErrors::CliParameterMissing(cause()), "Missing parameters/env vars: boom"),
        (MacgyverCmdErrors::KubeConfig(cause()), "Error KubeConfig: boom"),
        (MacgyverCmdErrors::K8sCanNotCreateClient(cause()), "Can not create k8s client: boom"),
        (MacgyverCmdErrors::K8sBuildRequest(cause()), "Error when building k8s request: boom"),
        (
            MacgyverCmdErrors::GitlabCanNotCreateClient(cause()),
            "Error when creating gitlab client: boom",
        ),
        (MacgyverCmdErrors::GitlabScope(cause()), "Error when GitlabScope API response: boom"),
        (
            MacgyverCmdErrors::GitlabBuildRequest(cause()),
            "Error when building gitlab request: boom",
        ),
        (
            MacgyverCmdErrors::GitlabPaged(cause()),
            "Error when using the page api from gitlab: boom",
        ),
        (
            MacgyverCmdErrors::HttpClient(cause()),
            "Error while doing as client http request: boom",
        ),
        (
            MacgyverCmdErrors::Utf8Conversion(cause()),
            "Error while converting utf8 to string: boom",
        ),
        (MacgyverCmdErrors::YamlError(cause()), "Error when deserializing yaml: boom"),
        (MacgyverCmdErrors::Processing(cause()), "Error while processing: boom"),
    ];
    for (failure, message) in cases {
        assert_eq!(failure.message(), message);
    }
}

#[test]
fn message_of_an_empty_cause_is_the_prefix() {
    assert_eq!(MacgyverCmdErrors::KubeConfig(String::new()).message(), "Error KubeConfig: ");
}
