//! The arguments of the command line, as plain values, and the rule that
//! accepts or rejects a service argument.

use crate::text::chars_of;
use vstd::prelude::*;
use vstd::string::*;

verus! {

/// What the tool was asked to do.
#[derive(Debug, PartialEq, Eq)]
pub struct CliArgs {
    pub entity: Entities,
}

/// The kinds of report, each with its own arguments.
#[derive(Debug, PartialEq, Eq)]
pub enum Entities {
    /// Collect info on pods
    Pods(NamespaceWithPods),
    /// Collect configmaps
    Configmap(NamespaceArgs),
    /// Collect resources(cpu, requests) info
    CpuMem(NamespaceArgs),
    /// Collect secret info
    Secret(NamespaceWithEncodedSecretArgs),
    /// Collect logs through different services
    Logs(Services),
}

/// The services whose logs are followed, and the text a line must hold to
/// be shown. One pattern serves every service of a run.
#[derive(Debug, PartialEq, Eq)]
pub struct Services {
    pub services: Vec<NamespaceAndService>,
    pub pattern: Option<String>,
}

/// One target of a log run: a service within a namespace.
#[derive(Debug, Clone, PartialEq, Eq)]
pub struct NamespaceAndService {
    pub namespace: String,
    pub service: String,
}

#[derive(Debug, PartialEq, Eq)]
pub struct NamespaceWithPods {
    pub with_pod: bool,
    pub namespace: String,
}

#[derive(Debug, PartialEq, Eq)]
pub struct NamespaceArgs {
    pub namespace: String,
}

#[derive(Debug, PartialEq, Eq)]
pub struct NamespaceWithEncodedSecretArgs {
    pub with_encoded: bool,
    pub namespace: String,
}

/// Why a service argument was rejected.
#[derive(Debug, Clone, Copy, PartialEq, Eq)]
pub enum ServiceSyntaxError {
    /// The argument holds no colon.
    MissingSeparator,
    /// The argument holds more than one colon.
    ExtraSeparator,
}

/// The colon at position `at` is the only colon of `s`.
pub open spec fn only_colon_at(s: Seq<char>, at: int) -> bool {
    &&& 0 <= at < s.len()
    &&& s[at] == ':'
    &&& forall|j: int| 0 <= j < s.len() && j != at ==> s[j] != ':'
}

/// `s` has the syntax `namespace:service`: it holds exactly one colon.
pub open spec fn is_service_syntax(s: Seq<char>) -> bool {
    exists|at: int| only_colon_at(s, at)
}

impl ServiceSyntaxError {
    /// The sentence shown to the user; it is the same for both variants.
    pub fn message(&self) -> (text: String)
        ensures
            text@ == "Invalid argument . Service has syntax namespace:service"@,
    {
        "Invalid argument . Service has syntax namespace:service".to_owned()
    }
}

/// Splits `namespace:service` at its colon.
///
/// An argument is accepted exactly when it holds one colon; what stands
/// before the colon is the namespace, what stands after it the service.
/// Either part may be empty.
pub fn validate_services(args: &str) -> (parsed: Result<NamespaceAndService, ServiceSyntaxError>)
    ensures
        parsed is Ok <==> is_service_syntax(args@),
        parsed matches Ok(target) ==> {
            &&& args@ == target.namespace@ + seq![':'] + target.service@
            &&& !target.namespace@.contains(':')
            &&& !target.service@.contains(':')
        },
        parsed matches Err(reason) ==> (reason == ServiceSyntaxError::MissingSeparator
            <==> !args@.contains(':')),
{
    let chars = chars_of(args);
    let n = chars.len();
    let mut at: usize = 0;
    while at < n && chars[at] != ':'
        invariant
            n == chars.len(),
            at <= n,
            forall|j: int| 0 <= j < at ==> chars@[j] != ':',
        decreases n - at,
    {
        at += 1;
    }
    if at == n {
        assert forall|i: int| !only_colon_at(args@, i) by {}
        return Err(ServiceSyntaxError::MissingSeparator);
    }
    let mut k: usize = at + 1;
    while k < n && chars[k] != ':'
        invariant
            n == chars.len(),
            at < k <= n,
            forall|j: int| at < j < k ==> chars@[j] != ':',
        decreases n - k,
    {
        k += 1;
    }
    if k < n {
        assert forall|i: int| !only_colon_at(args@, i) by {
            // a single colon cannot stand at both `at` and `k`
            assert(args@[at as int] == ':' && args@[k as int] == ':');
        }
        return Err(ServiceSyntaxError::ExtraSeparator);
    }
    assert(only_colon_at(args@, at as int));
    let namespace = args.substring_char(0, at).to_owned();
    let service = args.substring_char(at + 1, n).to_owned();
    Ok(NamespaceAndService { namespace, service })
}

} // verus!
