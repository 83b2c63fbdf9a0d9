//! The knowledge areas that tool profiles are tagged with.
use vstd::prelude::*;
use crate::base::types::strs;
use crate::text::{str_eq, string_from};

verus! {

/// The built-in knowledge topics, in order.
pub open spec fn knowledge_topics_spec() -> Seq<Seq<char>> {
    seq![
        "attack-surface-mapping"@,
        "subdomain-enumeration"@,
        "web-application-testing"@,
        "api-security"@,
        "secrets-exposure"@,
        "network-recon"@,
        "sandbox-aware-execution"@,
        "cloud-enumeration"@,
        "code-analysis"@,
        "social-engineering"@,
    ]
}

/// The description of a knowledge topic; unknown topics get a general one.
pub open spec fn topic_description_spec(topic: Seq<char>) -> Seq<char> {
    if topic == "attack-surface-mapping"@ {
        "Map the full attack surface of the target including subdomains, IP ranges, and technologies."@
    } else if topic == "subdomain-enumeration"@ {
        "Discover subdomains using passive and active techniques."@
    } else if topic == "web-application-testing"@ {
        "Test web applications for common vulnerabilities (XSS, SQLi, SSRF, etc.)."@
    } else if topic == "api-security"@ {
        "Audit API endpoints for authentication, authorization, and injection flaws."@
    } else if topic == "secrets-exposure"@ {
        "Scan for exposed secrets, tokens, and credentials in code and configs."@
    } else if topic == "network-recon"@ {
        "Perform network reconnaissance including port scanning and service detection."@
    } else if topic == "sandbox-aware-execution"@ {
        "Execute tools in a sandboxed environment with restricted permissions."@
    } else if topic == "cloud-enumeration"@ {
        "Enumerate cloud infrastructure including S3 buckets, Azure blobs, and more."@
    } else if topic == "code-analysis"@ {
        "Perform static analysis on source code to find vulnerabilities."@
    } else if topic == "social-engineering"@ {
        "Gather OSINT for social engineering attack vectors."@
    } else {
        "General security testing knowledge area."@
    }
}

/// The built-in knowledge topics.
pub fn builtin_knowledge_topics() -> (r: Vec<String>)
    ensures
        strs(r@) == knowledge_topics_spec(),
{
    let mut r: Vec<String> = Vec::new();
    r.push(string_from("attack-surface-mapping"));
    r.push(string_from("subdomain-enumeration"));
    r.push(string_from("web-application-testing"));
    r.push(string_from("api-security"));
    r.push(string_from("secrets-exposure"));
    r.push(string_from("network-recon"));
    r.push(string_from("sandbox-aware-execution"));
    r.push(string_from("cloud-enumeration"));
    r.push(string_from("code-analysis"));
    r.push(string_from("social-engineering"));
    assert(strs(r@) =~= knowledge_topics_spec());
    r
}

/// The description of a knowledge topic.
pub fn topic_description(topic: &str) -> (r: &'static str)
    ensures
        r@ == topic_description_spec(topic@),
{
    if str_eq(topic, "attack-surface-mapping") {
        "Map the full attack surface of the target including subdomains, IP ranges, and technologies."
    } else if str_eq(topic, "subdomain-enumeration") {
        "Discover subdomains using passive and active techniques."
    } else if str_eq(topic, "web-application-testing") {
        "Test web applications for common vulnerabilities (XSS, SQLi, SSRF, etc.)."
    } else if str_eq(topic, "api-security") {
        "Audit API endpoints for authentication, authorization, and injection flaws."
    } else if str_eq(topic, "secrets-exposure") {
        "Scan for exposed secrets, tokens, and credentials in code and configs."
    } else if str_eq(topic, "network-recon") {
        "Perform network reconnaissance including port scanning and service detection."
    } else if str_eq(topic, "sandbox-aware-execution") {
        "Execute tools in a sandboxed environment with restricted permissions."
    } else if str_eq(topic, "cloud-enumeration") {
        "Enumerate cloud infrastructure including S3 buckets, Azure blobs, and more."
    } else if str_eq(topic, "code-analysis") {
        "Perform static analysis on source code to find vulnerabilities."
    } else if str_eq(topic, "social-engineering") {
        "Gather OSINT for social engineering attack vectors."
    } else {
        "General security testing knowledge area."
    }
}

} // verus!
