//! Configuration values that the library's logic reads.

pub mod patch;

use vstd::prelude::*;
use crate::input::canon::CanonConfig;
use crate::input::ge::GEConfig;
use crate::input::jumiom::JumiomConfig;
use crate::input::mesy::MesyConfig;
use crate::input::test::TestInputConfig;

verus! {

/// Histogram dimensions.
#[derive(Debug, Clone, Copy, PartialEq, Eq, Structural)]
pub struct HistoConfig {
    pub nx: usize,
    pub ny: usize,
    pub max_nt: usize,
    pub max_ni: usize,
}

/// A user-defined expression alias: its expression and help text.
#[derive(Debug)]
pub struct ExprAliasConfig {
    pub expr: String,
    pub help: String,
}

/// The configuration of an input, by input type.
#[derive(Debug)]
pub enum SpecificInputConfig {
    GE(GEConfig),
    Canon(CanonConfig),
    Mesy(MesyConfig),
    Jumiom(JumiomConfig),
    Test(TestInputConfig),
}

/// An input: the recipe its events go through, and its own configuration.
#[derive(Debug)]
pub struct InputConfig {
    pub recipe: String,
    pub specific: SpecificInputConfig,
}

/// Where an input reads from: a network address or a file.
#[derive(Debug)]
pub enum SourceConfig {
    IP(String),
    File(String),
}

/// A network address is text with no `/` and exactly one `:`.
pub open spec fn is_ip_address(s: Seq<char>) -> bool {
    !s.contains('/') && s.filter(|c: char| c == ':').len() == 1
}

impl SourceConfig {
    /// Classifies a source text: a network address (`host:port`) or,
    /// otherwise, a file path.
    pub fn from_text(s: String) -> (r: SourceConfig)
        ensures
            match r {
                SourceConfig::IP(t) => t@ == s@ && is_ip_address(s@),
                SourceConfig::File(t) => t@ == s@ && !is_ip_address(s@),
            },
    {
        if is_ip_text(s.as_str()) {
            SourceConfig::IP(s)
        } else {
            SourceConfig::File(s)
        }
    }
}

/// Whether `s` names a network address rather than a file.
pub fn is_ip_text(s: &str) -> (r: bool)
    ensures
        r == is_ip_address(s@),
{
    let n = s.unicode_len();
    let mut colons: usize = 0;
    let mut i: usize = 0;
    while i < n
        invariant
            n == s@.len(),
            i <= n,
            colons == s@.subrange(0, i as int).filter(|c: char| c == ':').len(),
            colons <= i,
            !s@.subrange(0, i as int).contains('/'),
        decreases n - i,
    {
        let c = s.get_char(i);
        let ghost pre = s@.subrange(0, i as int);
        assert(s@.subrange(0, i + 1) =~= pre.push(c));
        proof {
            pre.lemma_filter_push(c, |c: char| c == ':');
        }
        if c == '/' {
            assert(s@.contains('/')) by {
                assert(s@[i as int] == '/');
            }
            return false;
        }
        if c == ':' {
            colons = colons + 1;
        }
        i = i + 1;
        assert forall|j: int| 0 <= j < i implies s@.subrange(0, i as int)[j] != '/' by {
            if j < i - 1 {
                assert(s@.subrange(0, i as int)[j] == pre[j]);
                assert(!pre.contains('/'));
                if pre[j] == '/' {
                    assert(pre.contains('/'));
                }
            }
        }
    }
    assert(s@.subrange(0, n as int) =~= s@);
    colons == 1
}

/// The default name of the shared-memory segment and control socket.
pub fn default_ipc_name() -> (s: String)
    ensures
        s@ == "umami"@,
{
    "umami".to_owned()
}

} // verus!
