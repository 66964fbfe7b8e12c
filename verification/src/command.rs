//! Commands that the platform code runs, and what a finished command left:
//! the plain values that pass between this library and the code that
//! spawns processes.

use vstd::prelude::*;
use crate::models::{DnsProvider, DnsProviderView};

verus! {

/// A program to run, with its arguments.
#[derive(Debug, PartialEq)]
pub struct CommandLine {
    pub program: String,
    pub args: Vec<String>,
}

impl CommandLine {
    /// This command runs `program` with exactly the arguments `args`.
    pub open spec fn runs(&self, program: Seq<char>, args: Seq<Seq<char>>) -> bool {
        self.program@ == program && self.args.deep_view() == args
    }
}

/// What a command that ran to completion left behind.
#[derive(Debug, PartialEq)]
pub struct CommandOutput {
    /// Whether it exited with a success status
    pub success: bool,
    /// Everything it wrote to standard output, decoded as text
    pub stdout: String,
    /// Everything it wrote to standard error, decoded as text
    pub stderr: String,
    /// Its exit code, when it exited with one
    pub code: Option<i32>,
}

/// Where an operation gets its network interface from: the name the caller
/// gave, or else what a detection command finds.
#[derive(Debug, PartialEq)]
pub enum InterfaceSource {
    /// Use this interface
    Named(String),
    /// Run this command and read the interface from its output
    Detect(CommandLine),
}

/// Builds a command from a program name and its arguments.
pub fn command(program: &str, args: Vec<String>) -> (r: CommandLine)
    ensures
        r.program@ == program@,
        r.args.deep_view() == args.deep_view(),
{
    CommandLine { program: program.to_string(), args }
}

/// The message of a successful DNS change: the provider's name and both
/// IPv4 servers, and where they were set.
pub open spec fn dns_set_message(p: DnsProviderView, target: Seq<char>) -> Seq<char> {
    "DNS set to "@ + p.name + " ("@ + p.primary_dns + ", "@ + p.secondary_dns + ") on "@ + target
}

/// Builds `dns_set_message`.
pub fn dns_set_text(provider: &DnsProvider, target: &str) -> (r: String)
    ensures
        r@ == dns_set_message(provider@, target@),
{
    let mut m = "DNS set to ".to_string();
    m.append(provider.name.as_str());
    m.append(" (");
    m.append(provider.primary_dns.as_str());
    m.append(", ");
    m.append(provider.secondary_dns.as_str());
    m.append(") on ");
    m.append(target);
    m
}

/// `prefix` followed by `rest`.
pub fn text_then(prefix: &str, rest: &str) -> (r: String)
    ensures
        r@ == prefix@ + rest@,
{
    let mut m = prefix.to_string();
    m.append(rest);
    m
}

} // verus!
