//! Replies to control commands, and the decisions the command handler
//! makes about them: how the replies of several modules combine, how
//! dotted parameter keys split into module and parameter, and which
//! parameters are written back to the configuration file.

pub mod handler;

use vstd::prelude::*;

verus! {

/// `serde_json::Value`: a JSON value, carried through unread.
#[verifier::external_type_specification]
#[verifier::external_body]
pub struct ExJsonValue(serde_json::Value);

/// The reply to a command.
#[derive(Debug)]
pub enum CommandReply {
    /// Success without data.
    Done,
    /// Success with a JSON value.
    Data { value: serde_json::Value },
    /// Failure, with the module that failed if known.
    Error { module: Option<String>, message: String },
}

impl CommandReply {
    pub fn new_error(message: String) -> (r: CommandReply)
        ensures
            r == (CommandReply::Error { module: None, message }),
    {
        CommandReply::Error { module: None, message }
    }

    pub fn new_mod_error(module: String, message: String) -> (r: CommandReply)
        ensures
            r == (CommandReply::Error { module: Some(module), message }),
    {
        CommandReply::Error { module: Some(module), message }
    }

    pub fn is_error(&self) -> (r: bool)
        ensures
            r == (*self is Error),
    {
        match self {
            CommandReply::Error { .. } => true,
            _ => false,
        }
    }
}

/// The first error among `s`, if any.
pub open spec fn first_error(s: Seq<CommandReply>) -> Option<CommandReply>
    decreases s.len(),
{
    if s.len() == 0 {
        None
    } else if s[0] is Error {
        Some(s[0])
    } else {
        first_error(s.drop_first())
    }
}

/// The combined reply of several modules to one command: the first error,
/// or success if none failed.  The error is taken out of `v`.
pub fn first_error_or_done(v: &mut Vec<CommandReply>) -> (r: CommandReply)
    ensures
        r == match first_error(old(v)@) {
            Some(x) => x,
            None => CommandReply::Done,
        },
{
    let ghost orig = old(v)@;
    let mut i: usize = 0;
    proof {
        assert(v@.skip(0) =~= v@);
    }
    while i < v.len()
        invariant
            v@ == orig,
            orig == old(v)@,
            i <= v@.len(),
            first_error(v@) == first_error(v@.skip(i as int)),
        decreases v@.len() - i,
    {
        if v[i].is_error() {
            proof {
                assert(v@.skip(i as int)[0] == v@[i as int]);
                assert(v@.skip(i as int).len() > 0);
                assert(first_error(v@.skip(i as int)) == Some(v@[i as int]));
            }
            let found = v.remove(i);
            return found;
        }
        proof {
            assert(v@.skip(i as int).drop_first() =~= v@.skip(i + 1));
        }
        i = i + 1;
    }
    assert(v@.skip(i as int).len() == 0);
    CommandReply::Done
}

fn find_dot(s: &str) -> (r: Option<usize>)
    ensures
        match r {
            Some(i) => i < s@.len() && s@[i as int] == '.' && forall|j: int| 0 <= j < i ==> s@[j] != '.',
            None => !s@.contains('.'),
        },
{
    let n = s.unicode_len();
    let mut i: usize = 0;
    while i < n
        invariant
            n == s@.len(),
            i <= n,
            forall|j: int| 0 <= j < i ==> s@[j] != '.',
        decreases n - i,
    {
        if s.get_char(i) == '.' {
            return Some(i);
        }
        i = i + 1;
    }
    None
}

/// Whether a parameter key has the form `<module>.<param>`.
pub fn param_key_valid(name: &str) -> (r: bool)
    ensures
        r == name@.contains('.'),
{
    match find_dot(name) {
        Some(i) => {
            assert(name@[i as int] == '.');
            true
        },
        None => false,
    }
}

/// Splits a parameter key at its first `'.'` into module and parameter.
pub fn split_param_key(name: &str) -> (r: Option<(String, String)>)
    ensures
        name@.contains('.') <==> r is Some,
        r matches Some((m, p)) ==> !m@.contains('.') && name@ == m@ + seq!['.'] + p@,
{
    match find_dot(name) {
        Some(i) => {
            let n = name.unicode_len();
            let m = name.substring_char(0, i).to_owned();
            let p = name.substring_char(i + 1, n).to_owned();
            proof {
                assert(name@ =~= m@ + seq!['.'] + p@);
                assert(!m@.contains('.')) by {
                    if m@.contains('.') {
                        let k = choose|k: int| 0 <= k < m@.len() && m@[k] == '.';
                        assert(name@[k] == '.');
                    }
                }
            }
            Some((m, p))
        },
        None => None,
    }
}

/// The key of parameter `param` of module `module`: `<module>.<param>`.
pub fn dotted_key(module: &str, param: &str) -> (r: String)
    ensures
        r@ == module@ + seq!['.'] + param@,
{
    let mut r = String::new();
    crate::text::push_str(&mut r, module);
    crate::text::push_char(&mut r, '.');
    crate::text::push_str(&mut r, param);
    assert(r@ =~= module@ + seq!['.'] + param@);
    r
}

/// Whether a parameter, as reported under `key`, is written back to the
/// configuration file, and then under which module and name: the key must
/// be dotted, the parameter not the module's `_info`, settable and kept
/// across restarts, and have a value.
pub fn saved_param(key: &str, readonly: bool, runtime_only: bool, has_value: bool) -> (r: Option<(String, String)>)
    ensures
        match r {
            Some((m, p)) => {
                &&& key@ == m@ + seq!['.'] + p@
                &&& !m@.contains('.')
                &&& p@ != "_info"@
                &&& !readonly && !runtime_only && has_value
            },
            None => !key@.contains('.') || readonly || runtime_only || !has_value
                || (exists|m: Seq<char>| !m.contains('.') && key@ == m + seq!['.'] + "_info"@),
        },
{
    let (m, p) = match split_param_key(key) {
        Some(mp) => mp,
        None => return None,
    };
    if crate::text::chars_eq_str(&crate::text::str_to_chars(p.as_str()), "_info") {
        assert(key@ == m@ + seq!['.'] + "_info"@);
        return None;
    }
    if readonly || runtime_only || !has_value {
        return None;
    }
    Some((m, p))
}

} // verus!
