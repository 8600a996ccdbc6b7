//! The library-wide error type.

use vstd::prelude::*;
use crate::text::push_str;

verus! {

/// `anyhow::Error`: an opaque error with a chain of context messages.
#[verifier::external_type_specification]
#[verifier::external_body]
pub struct ExAnyhowError(anyhow::Error);

/// Errors of the acquisition pipeline.
#[derive(Debug)]
pub enum UError {
    /// Any other error: its innermost message, and the context messages
    /// added around it, innermost first.
    Other(String, Vec<String>),
    /// Data from file exhausted.
    NoMoreData,
}

pub type UResult<T> = Result<T, UError>;

/// The text of an error chain: the context messages from the outermost
/// inward, then the innermost message, joined by `": "`.
pub open spec fn chain_text(inner: Seq<char>, contexts: Seq<Seq<char>>) -> Seq<char>
    decreases contexts.len(),
{
    if contexts.len() == 0 {
        inner
    } else {
        contexts.last() + seq![':', ' '] + chain_text(inner, contexts.drop_last())
    }
}

/// The characters of each string.
pub open spec fn string_views(v: Seq<String>) -> Seq<Seq<char>> {
    v.map_values(|s: String| s@)
}

impl UError {
    /// The error's message.
    pub open spec fn message(self) -> Seq<char> {
        match self {
            UError::Other(m, contexts) => chain_text(m@, string_views(contexts@)),
            UError::NoMoreData => "Data from file exhausted"@,
        }
    }

    /// An error that carries the message `msg` only.
    pub fn msg(msg: String) -> (r: UError)
        ensures
            r is Other,
            r.message() == msg@,
    {
        let r = UError::Other(msg, Vec::new());
        proof {
            assert(string_views(Seq::<String>::empty()) =~= Seq::<Seq<char>>::empty());
        }
        r
    }

    /// The error with `msg` added as outermost context; `NoMoreData`
    /// becomes an `Other` error whose innermost message is its own.
    pub fn context(self, msg: String) -> (r: UError)
        ensures
            r is Other,
            r.message() == msg@ + seq![':', ' '] + self.message(),
    {
        match self {
            UError::Other(m, contexts) => {
                let ghost old_contexts = contexts@;
                let mut contexts = contexts;
                contexts.push(msg);
                proof {
                    let cs = string_views(contexts@);
                    assert(cs.len() == old_contexts.len() + 1);
                    assert(cs.last() == msg@);
                    assert(cs.drop_last() =~= string_views(old_contexts));
                    assert(chain_text(m@, cs) == msg@ + seq![':', ' '] + chain_text(
                        m@,
                        string_views(old_contexts),
                    ));
                }
                UError::Other(m, contexts)
            },
            UError::NoMoreData => {
                let inner = "Data from file exhausted".to_owned();
                let mut contexts: Vec<String> = Vec::new();
                contexts.push(msg);
                proof {
                    let cs = string_views(contexts@);
                    assert(cs.drop_last() =~= Seq::<Seq<char>>::empty());
                    assert(chain_text(inner@, cs.drop_last()) == inner@);
                    assert(cs.last() == msg@);
                }
                UError::Other(inner, contexts)
            },
        }
    }

    /// Whether the error is the end of a data file.
    pub fn is_no_more_data(&self) -> (r: bool)
        ensures
            r == (self is NoMoreData),
    {
        match self {
            UError::NoMoreData => true,
            UError::Other(..) => false,
        }
    }

    /// The error's message: the context messages of `Other` from the
    /// outside in, then its innermost message, joined by `": "`; or the
    /// fixed text of `NoMoreData`.
    pub fn to_text(&self) -> (s: String)
        ensures
            s@ == self.message(),
    {
        match self {
            UError::Other(m, contexts) => {
                let ghost cs = string_views(contexts@);
                let mut out = String::new();
                let mut i = contexts.len();
                proof {
                    assert(cs.take(i as int) =~= cs);
                    assert(out@ + chain_text(m@, cs) =~= chain_text(m@, cs));
                }
                while i > 0
                    invariant
                        i <= contexts.len(),
                        cs == string_views(contexts@),
                        out@ + chain_text(m@, cs.take(i as int)) == chain_text(m@, cs),
                    decreases i,
                {
                    proof {
                        assert(cs.take(i as int).drop_last() =~= cs.take(i - 1));
                        assert(cs.take(i as int).last() == contexts@[i - 1]@);
                    }
                    push_str(&mut out, contexts[i - 1].as_str());
                    push_str(&mut out, ": ");
                    proof {
                        reveal_strlit(": ");
                        assert(": "@ =~= seq![':', ' ']);
                    }
                    i = i - 1;
                }
                proof {
                    assert(cs.take(0) =~= Seq::<Seq<char>>::empty());
                }
                push_str(&mut out, m.as_str());
                out
            },
            UError::NoMoreData => "Data from file exhausted".to_owned(),
        }
    }
}

} // verus!
