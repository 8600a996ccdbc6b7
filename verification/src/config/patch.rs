//! Writing parameter values back into the configuration file: each value
//! goes into the table of its module, looked for in the sections
//! `inputs`, `input_recipes`, `process_modes` and `outputs`, in that
//! order; a module that none of them has is skipped. The document is kept
//! as `toml_edit` holds it, so the rest of the file stays as it was.

use vstd::prelude::*;

verus! {

/// `toml_edit::DocumentMut`: a parsed TOML document that keeps its
/// formatting.
#[verifier::external_type_specification]
#[verifier::external_body]
pub struct ExDocumentMut(toml_edit::DocumentMut);

/// `toml_edit::Value`: a TOML value.
#[verifier::external_type_specification]
#[verifier::external_body]
pub struct ExTomlValue(toml_edit::Value);

/// What a document holds at the third level: the value of each parameter,
/// by section, module and parameter name.
pub uninterp spec fn doc_values(d: toml_edit::DocumentMut) -> Map<(Seq<char>, Seq<char>, Seq<char>), toml_edit::Value>;

/// The modules of a document: the pairs of section and module name whose
/// entry is a table.
pub uninterp spec fn doc_tables(d: toml_edit::DocumentMut) -> Set<(Seq<char>, Seq<char>)>;

/// The document a text parses to, if it is TOML.
pub uninterp spec fn parsed_document(text: Seq<char>) -> Option<toml_edit::DocumentMut>;

/// The text of a document.
pub uninterp spec fn document_text(d: toml_edit::DocumentMut) -> Seq<char>;

/// `DocumentMut::from_str`: the document of `text`, or, where it is not
/// TOML, the parser's message (whose wording is left unsaid).
#[verifier::external_body]
fn parse_document(text: &str) -> (r: Result<toml_edit::DocumentMut, String>)
    ensures
        match r {
            Ok(d) => parsed_document(text@) == Some(d),
            Err(_) => parsed_document(text@) is None,
        },
{
    text.parse::<toml_edit::DocumentMut>().map_err(|e| e.to_string())
}

/// Whether the document's entry `section` is a table whose entry `module`
/// is a table (`get` and `as_table_like` of `toml_edit`).
#[verifier::external_body]
fn has_module(d: &toml_edit::DocumentMut, section: &str, module: &str) -> (r: bool)
    ensures
        r == doc_tables(*d).contains((section@, module@)),
{
    d.get(section)
        .and_then(|s| s.as_table_like())
        .and_then(|t| t.get(module))
        .and_then(|m| m.as_table_like())
        .is_some()
}

/// `TableLike::insert` into the table `section.module`: the parameter
/// `param` now holds `value`, every other value and table stays.
#[verifier::external_body]
fn set_param(d: &mut toml_edit::DocumentMut, section: &str, module: &str, param: &str, value: toml_edit::Value)
    requires
        doc_tables(*old(d)).contains((section@, module@)),
    ensures
        doc_values(*final(d)) == doc_values(*old(d)).insert((section@, module@, param@), value),
        doc_tables(*final(d)) == doc_tables(*old(d)),
{
    if let Some(t) = d.get_mut(section)
        .and_then(|s| s.as_table_like_mut())
        .and_then(|t| t.get_mut(module))
        .and_then(|m| m.as_table_like_mut())
    {
        t.insert(param, toml_edit::Item::Value(value));
    }
}

/// `DocumentMut`'s `Display`: the document as text.
#[verifier::external_body]
fn render(d: &toml_edit::DocumentMut) -> (s: String)
    ensures
        s@ == document_text(*d),
{
    d.to_string()
}

/// The section that holds `module`: the first of `inputs`,
/// `input_recipes`, `process_modes` and `outputs` where it is a table.
pub open spec fn home_section(tables: Set<(Seq<char>, Seq<char>)>, module: Seq<char>) -> Option<Seq<char>> {
    if tables.contains(("inputs"@, module)) {
        Some("inputs"@)
    } else if tables.contains(("input_recipes"@, module)) {
        Some("input_recipes"@)
    } else if tables.contains(("process_modes"@, module)) {
        Some("process_modes"@)
    } else if tables.contains(("outputs"@, module)) {
        Some("outputs"@)
    } else {
        None
    }
}

/// An update: module, parameter and the new value.
pub open spec fn update_views(u: Seq<(String, String, toml_edit::Value)>) -> Seq<(Seq<char>, Seq<char>, toml_edit::Value)> {
    u.map_values(|t: (String, String, toml_edit::Value)| (t.0@, t.1@, t.2))
}

/// The values after the updates `ups`, in order: each is put into its
/// module's table in the module's home section, or skipped where no
/// section has the module.
pub open spec fn patched(
    values: Map<(Seq<char>, Seq<char>, Seq<char>), toml_edit::Value>,
    tables: Set<(Seq<char>, Seq<char>)>,
    ups: Seq<(Seq<char>, Seq<char>, toml_edit::Value)>,
) -> Map<(Seq<char>, Seq<char>, Seq<char>), toml_edit::Value>
    decreases ups.len(),
{
    if ups.len() == 0 {
        values
    } else {
        let u = ups.last();
        let before = patched(values, tables, ups.drop_last());
        match home_section(tables, u.0) {
            Some(s) => before.insert((s, u.0, u.1), u.2),
            None => before,
        }
    }
}

/// The home section of `module` in `d`, looked for in order.
fn find_home(d: &toml_edit::DocumentMut, module: &str) -> (r: Option<&'static str>)
    ensures
        match r {
            Some(s) => home_section(doc_tables(*d), module@) == Some(s@),
            None => home_section(doc_tables(*d), module@) is None,
        },
{
    if has_module(d, "inputs", module) {
        Some("inputs")
    } else if has_module(d, "input_recipes", module) {
        Some("input_recipes")
    } else if has_module(d, "process_modes", module) {
        Some("process_modes")
    } else if has_module(d, "outputs", module) {
        Some("outputs")
    } else {
        None
    }
}

/// Applies the updates to the document in order: each value goes into
/// its module's home section, an update for an unknown module is skipped,
/// and nothing else changes.
pub fn patch_document(d: &mut toml_edit::DocumentMut, updates: Vec<(String, String, toml_edit::Value)>)
    ensures
        doc_values(*final(d)) == patched(doc_values(*old(d)), doc_tables(*old(d)), update_views(updates@)),
        doc_tables(*final(d)) == doc_tables(*old(d)),
{
    let ghost all = update_views(updates@);
    let ghost values0 = doc_values(*d);
    let ghost tables0 = doc_tables(*d);
    let mut rest = updates;
    let n = rest.len();
    let mut i: usize = 0;
    while i < n
        invariant
            i <= n,
            n == all.len(),
            rest@.len() == n - i,
            update_views(rest@) == all.subrange(i as int, n as int),
            doc_tables(*d) == tables0,
            doc_values(*d) == patched(values0, tables0, all.subrange(0, i as int)),
        decreases n - i,
    {
        let ghost before = rest@;
        let (module, param, value) = rest.remove(0);
        proof {
            assert(update_views(before)[0] == all[i as int]);
            assert(before[0] == (module, param, value));
            assert forall|j: int| 0 <= j < rest@.len() implies #[trigger] update_views(rest@)[j]
                == all.subrange(i + 1, n as int)[j] by {
                assert(rest@[j] == before[j + 1]);
                assert(update_views(before)[j + 1] == all[i + 1 + j]);
            }
            assert(all.subrange(0, i + 1).drop_last() =~= all.subrange(0, i as int));
            assert(all.subrange(0, i + 1).last() == all[i as int]);
            assert(update_views(rest@) =~= all.subrange(i + 1, n as int));
        }
        match find_home(d, module.as_str()) {
            Some(s) => set_param(d, s, module.as_str(), param.as_str(), value),
            None => {},
        }
        i = i + 1;
    }
    assert(all.subrange(0, n as int) =~= all);
}

/// The configuration text `text` with the updates written into it, or
/// the parser's message where `text` is not TOML.
pub fn patch_config_text(text: &str, updates: Vec<(String, String, toml_edit::Value)>) -> (r: Result<String, String>)
    ensures
        r is Ok <==> parsed_document(text@) is Some,
        r matches Ok(s) ==> exists|d: toml_edit::DocumentMut|
            #![trigger document_text(d)]
            s@ == document_text(d) && doc_values(d) == patched(
                doc_values(parsed_document(text@)->0),
                doc_tables(parsed_document(text@)->0),
                update_views(updates@),
            ) && doc_tables(d) == doc_tables(parsed_document(text@)->0),
{
    match parse_document(text) {
        Err(e) => Err(e),
        Ok(d) => {
            let mut d = d;
            patch_document(&mut d, updates);
            let s = render(&d);
            assert(s@ == document_text(d));
            Ok(s)
        },
    }
}

} // verus!
