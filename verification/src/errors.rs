//! The failures that end a run, each with the text of what caused it.

use vstd::prelude::*;
use vstd::string::*;

verus! {

/// A failure that ends the run. Each variant holds the description of its
/// cause as text.
#[derive(Debug, PartialEq, Eq)]
pub enum MacgyverCmdErrors {
    CliParameterMissing(String),
    KubeConfig(String),
    K8sCanNotCreateClient(String),
    K8sBuildRequest(String),
    GitlabCanNotCreateClient(String),
    GitlabScope(String),
    GitlabBuildRequest(String),
    GitlabPaged(String),
    HttpClient(String),
    Utf8Conversion(String),
    YamlError(String),
    Processing(String),
}

impl MacgyverCmdErrors {
    /// What the message of this kind of failure begins with.
    pub open spec fn prefix(self) -> Seq<char> {
        match self {
            MacgyverCmdErrors::CliParameterMissing(_) => "Missing parameters/env vars: "@,
            MacgyverCmdErrors::KubeConfig(_) => "Error KubeConfig: "@,
            MacgyverCmdErrors::K8sCanNotCreateClient(_) => "Can not create k8s client: "@,
            MacgyverCmdErrors::K8sBuildRequest(_) => "Error when building k8s request: "@,
            MacgyverCmdErrors::GitlabScope(_) => "Error when GitlabScope API response: "@,
            MacgyverCmdErrors::GitlabCanNotCreateClient(_) => "Error when creating gitlab client: "@,
            MacgyverCmdErrors::GitlabBuildRequest(_) => "Error when building gitlab request: "@,
            MacgyverCmdErrors::GitlabPaged(_) => "Error when using the page api from gitlab: "@,
            MacgyverCmdErrors::YamlError(_) => "Error when deserializing yaml: "@,
            MacgyverCmdErrors::Processing(_) => "Error while processing: "@,
            MacgyverCmdErrors::HttpClient(_) => "Error while doing as client http request: "@,
            MacgyverCmdErrors::Utf8Conversion(_) => "Error while converting utf8 to string: "@,
        }
    }

    /// The description of the cause.
    pub open spec fn detail(self) -> Seq<char> {
        match self {
            MacgyverCmdErrors::CliParameterMissing(e) => e@,
            MacgyverCmdErrors::KubeConfig(e) => e@,
            MacgyverCmdErrors::K8sCanNotCreateClient(e) => e@,
            MacgyverCmdErrors::K8sBuildRequest(e) => e@,
            MacgyverCmdErrors::GitlabScope(e) => e@,
            MacgyverCmdErrors::GitlabCanNotCreateClient(e) => e@,
            MacgyverCmdErrors::GitlabBuildRequest(e) => e@,
            MacgyverCmdErrors::GitlabPaged(e) => e@,
            MacgyverCmdErrors::YamlError(e) => e@,
            MacgyverCmdErrors::Processing(e) => e@,
            MacgyverCmdErrors::HttpClient(e) => e@,
            MacgyverCmdErrors::Utf8Conversion(e) => e@,
        }
    }

    /// The message shown to the user: the prefix of the kind of failure,
    /// then the description of its cause.
    pub fn message(&self) -> (text: String)
        ensures
            text@ == self.prefix() + self.detail(),
    {
        let (prefix, detail): (&str, &String) = match self {
            MacgyverCmdErrors::CliParameterMissing(e) => ("Missing parameters/env vars: ", e),
            MacgyverCmdErrors::KubeConfig(e) => ("Error KubeConfig: ", e),
            MacgyverCmdErrors::K8sCanNotCreateClient(e) => ("Can not create k8s client: ", e),
            MacgyverCmdErrors::K8sBuildRequest(e) => ("Error when building k8s request: ", e),
            MacgyverCmdErrors::GitlabScope(e) => ("Error when GitlabScope API response: ", e),
            MacgyverCmdErrors::GitlabCanNotCreateClient(e) => (
                "Error when creating gitlab client: ",
                e,
            ),
            MacgyverCmdErrors::GitlabBuildRequest(e) => ("Error when building gitlab request: ", e),
            MacgyverCmdErrors::GitlabPaged(e) => (
                "Error when using the page api from gitlab: ",
                e,
            ),
            MacgyverCmdErrors::YamlError(e) => ("Error when deserializing yaml: ", e),
            MacgyverCmdErrors::Processing(e) => ("Error while processing: ", e),
            MacgyverCmdErrors::HttpClient(e) => ("Error while doing as client http request: ", e),
            MacgyverCmdErrors::Utf8Conversion(e) => (
                "Error while converting utf8 to string: ",
                e,
            ),
        };
        let mut text = prefix.to_owned();
        text.append(detail.as_str());
        text
    }
}

} // verus!
